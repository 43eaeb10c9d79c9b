//! What the programs ask of the stored crates, and what they store about them.

use vstd::prelude::*;
use crate::import::ImportView;
use crate::index::RowView;
use crate::json::JsonView;
use crate::schema::{CrateColumn, VersionColumn};
use crate::times::Timestamp;
use crate::version_batch::StoredView;

verus! {

/// The yes-or-no columns of a crate.
#[derive(Debug, Clone, Copy, PartialEq, Eq, Structural)]
pub enum CrateFlag {
    Analyzed,
    Download,
    DownloadFailed,
    VersionHandled,
    CompileHandled,
    InitialCompileFailed,
    HeavyDepsSkipped,
}

impl CrateFlag {
    pub open spec fn stored_in(self) -> CrateColumn {
        match self {
            CrateFlag::Analyzed => CrateColumn::Analyzed,
            CrateFlag::Download => CrateColumn::Download,
            CrateFlag::DownloadFailed => CrateColumn::DownloadFailed,
            CrateFlag::VersionHandled => CrateColumn::VersionHandled,
            CrateFlag::CompileHandled => CrateColumn::CompileHandled,
            CrateFlag::InitialCompileFailed => CrateColumn::InitialCompileFailed,
            CrateFlag::HeavyDepsSkipped => CrateColumn::HeavyDepsSkipped,
        }
    }

    /// The column that holds the flag.
    pub fn column(&self) -> (column: CrateColumn)
        ensures
            column == self.stored_in(),
    {
        match self {
            CrateFlag::Analyzed => CrateColumn::Analyzed,
            CrateFlag::Download => CrateColumn::Download,
            CrateFlag::DownloadFailed => CrateColumn::DownloadFailed,
            CrateFlag::VersionHandled => CrateColumn::VersionHandled,
            CrateFlag::CompileHandled => CrateColumn::CompileHandled,
            CrateFlag::InitialCompileFailed => CrateColumn::InitialCompileFailed,
            CrateFlag::HeavyDepsSkipped => CrateColumn::HeavyDepsSkipped,
        }
    }
}

/// The text columns of a crate that are asked for.
#[derive(Debug, Clone, Copy, PartialEq, Eq, Structural)]
pub enum CrateText {
    Name,
    VersionNew,
}

impl CrateText {
    pub open spec fn stored_in(self) -> CrateColumn {
        match self {
            CrateText::Name => CrateColumn::Name,
            CrateText::VersionNew => CrateColumn::VersionNew,
        }
    }

    /// The column that holds the text.
    pub fn column(&self) -> (column: CrateColumn)
        ensures
            column == self.stored_in(),
    {
        match self {
            CrateText::Name => CrateColumn::Name,
            CrateText::VersionNew => CrateColumn::VersionNew,
        }
    }
}

/// A stored crate. A text that may be missing is optional.
pub struct RecordView {
    pub id: int,
    pub name: Seq<char>,
    pub homepage: Option<Seq<char>>,
    pub created_at: Timestamp,
    pub updated_at: Timestamp,
    pub version_new: Option<Seq<char>>,
    pub flags: Map<CrateFlag, bool>,
    pub cargo_lock_exists: i32,
    pub dep_update_errors: Option<JsonView>,
    pub heavy_deps_count: i32,
}

impl RecordView {
    pub open spec fn text(self, column: CrateText) -> Option<Seq<char>> {
        match column {
            CrateText::Name => Some(self.name),
            CrateText::VersionNew => self.version_new,
        }
    }
}

/// A condition on a stored crate.
#[derive(Debug, Clone, Copy)]
pub enum Condition {
    FlagIs(CrateFlag, bool),
    NotNull(CrateText),
    /// The column holds a text, and not this one.
    TextIsNot(CrateText, &'static str),
    IdAbove(i32),
}

impl Condition {
    pub open spec fn holds(self, record: RecordView) -> bool {
        match self {
            Condition::FlagIs(flag, value) => record.flags[flag] == value,
            Condition::NotNull(column) => record.text(column) is Some,
            Condition::TextIsNot(column, text) => match record.text(column) {
                Some(held) => held != text@,
                None => false,
            },
            Condition::IdAbove(id) => record.id > id,
        }
    }
}

/// Whether a crate meets every one of the conditions.
pub open spec fn meets(record: RecordView, conditions: Seq<Condition>) -> bool {
    forall|i: int| 0 <= i < conditions.len() ==> (#[trigger] conditions[i]).holds(record)
}

/// Whether the source of a crate is still to be downloaded: it was not, and the
/// download did not fail, and there is a version to download.
pub open spec fn unfetched(record: RecordView) -> bool {
    &&& !record.flags[CrateFlag::Download]
    &&& !record.flags[CrateFlag::DownloadFailed]
    &&& record.version_new is Some
    &&& record.version_new->0 != "yanked"@
    &&& record.version_new->0 != ""@
}

/// The conditions on a crate that is still to be downloaded.
pub fn unfetched_conditions() -> (conditions: Vec<Condition>)
    ensures
        forall|record: RecordView| #[trigger]
            meets(record, conditions@) <==> unfetched(record),
        forall|record: RecordView| #[trigger]
            meets(record, conditions@) <==> !record.flags[CrateFlag::Download]
                && !record.flags[CrateFlag::DownloadFailed] && (record.version_new matches Some(
                version,
            ) && version != "yanked"@ && version != ""@),
{
    let mut conditions: Vec<Condition> = Vec::new();
    conditions.push(Condition::FlagIs(CrateFlag::Download, false));
    conditions.push(Condition::FlagIs(CrateFlag::DownloadFailed, false));
    conditions.push(Condition::NotNull(CrateText::VersionNew));
    conditions.push(Condition::TextIsNot(CrateText::VersionNew, "yanked"));
    conditions.push(Condition::TextIsNot(CrateText::VersionNew, ""));
    proof {
        assert forall|record: RecordView| #[trigger]
            meets(record, conditions@) <==> unfetched(record) by {
            if meets(record, conditions@) {
                assert(conditions@[0].holds(record));
                assert(conditions@[1].holds(record));
                assert(conditions@[2].holds(record));
                assert(conditions@[3].holds(record));
                assert(conditions@[4].holds(record));
            }
        }
    }
    conditions
}

/// Whether the versions of a crate are still to be read from the index.
pub open spec fn versions_unhandled(record: RecordView) -> bool {
    &&& !record.flags[CrateFlag::VersionHandled]
    &&& !record.flags[CrateFlag::DownloadFailed]
    &&& record.name != ""@
}

/// The conditions on a crate whose versions are still to be read.
pub fn unhandled_version_conditions() -> (conditions: Vec<Condition>)
    ensures
        forall|record: RecordView| #[trigger]
            meets(record, conditions@) <==> versions_unhandled(record),
        forall|record: RecordView| #[trigger]
            meets(record, conditions@) <==> !record.flags[CrateFlag::VersionHandled]
                && !record.flags[CrateFlag::DownloadFailed] && record.name != ""@,
{
    let mut conditions: Vec<Condition> = Vec::new();
    conditions.push(Condition::FlagIs(CrateFlag::VersionHandled, false));
    conditions.push(Condition::FlagIs(CrateFlag::DownloadFailed, false));
    conditions.push(Condition::TextIsNot(CrateText::Name, ""));
    proof {
        assert forall|record: RecordView| #[trigger]
            meets(record, conditions@) <==> versions_unhandled(record) by {
            if meets(record, conditions@) {
                assert(conditions@[0].holds(record));
                assert(conditions@[1].holds(record));
                assert(conditions@[2].holds(record));
            }
        }
    }
    conditions
}

/// Whether a crate after the crate `after_id` is still to be compiled.
pub open spec fn uncompiled(record: RecordView, after_id: i32) -> bool {
    &&& !record.flags[CrateFlag::CompileHandled]
    &&& record.id > after_id
}

/// The conditions on a crate after the crate `after_id` that is still to be
/// compiled.
pub fn uncompiled_conditions(after_id: i32) -> (conditions: Vec<Condition>)
    ensures
        forall|record: RecordView| #[trigger]
            meets(record, conditions@) <==> uncompiled(record, after_id),
        forall|record: RecordView| #[trigger]
            meets(record, conditions@) <==> !record.flags[CrateFlag::CompileHandled] && record.id
                > after_id,
{
    let mut conditions: Vec<Condition> = Vec::new();
    conditions.push(Condition::FlagIs(CrateFlag::CompileHandled, false));
    conditions.push(Condition::IdAbove(after_id));
    proof {
        assert forall|record: RecordView| #[trigger]
            meets(record, conditions@) <==> uncompiled(record, after_id) by {
            if meets(record, conditions@) {
                assert(conditions@[0].holds(record));
                assert(conditions@[1].holds(record));
            }
        }
    }
    conditions
}

/// A change of a stored crate.
#[derive(Debug, Clone, Copy)]
pub enum Change {
    SetFlag(CrateFlag, bool),
    SetCargoLockExists(i32),
    SetHeavyDepsCount(i32),
}

impl Change {
    pub open spec fn made(self, record: RecordView) -> RecordView {
        match self {
            Change::SetFlag(flag, value) => RecordView {
                flags: record.flags.insert(flag, value),
                ..record
            },
            Change::SetCargoLockExists(code) => RecordView { cargo_lock_exists: code, ..record },
            Change::SetHeavyDepsCount(n) => RecordView { heavy_deps_count: n, ..record },
        }
    }
}

/// A crate after the changes, one after another.
pub open spec fn changed(record: RecordView, changes: Seq<Change>) -> RecordView
    decreases changes.len(),
{
    if changes.len() == 0 {
        record
    } else {
        changes.last().made(changed(record, changes.drop_last()))
    }
}

/// What happens to a crate.
#[derive(Debug, Clone, Copy)]
pub enum Milestone {
    Downloaded,
    DownloadFailed,
    VersionHandled,
    CompileHandled,
    InitialCompileFailed,
    HeavyDepsSkipped(i32),
    CargoLockSeen(i32),
}

impl Milestone {
    /// What is stored: a crate that was downloaded has no failed download any
    /// more.
    pub open spec fn stores(self) -> Seq<Change> {
        match self {
            Milestone::Downloaded => seq![
                Change::SetFlag(CrateFlag::Download, true),
                Change::SetFlag(CrateFlag::DownloadFailed, false),
            ],
            Milestone::DownloadFailed => seq![Change::SetFlag(CrateFlag::DownloadFailed, true)],
            Milestone::VersionHandled => seq![Change::SetFlag(CrateFlag::VersionHandled, true)],
            Milestone::CompileHandled => seq![Change::SetFlag(CrateFlag::CompileHandled, true)],
            Milestone::InitialCompileFailed => seq![
                Change::SetFlag(CrateFlag::InitialCompileFailed, true),
            ],
            Milestone::HeavyDepsSkipped(n) => seq![
                Change::SetFlag(CrateFlag::HeavyDepsSkipped, true),
                Change::SetHeavyDepsCount(n),
            ],
            Milestone::CargoLockSeen(code) => seq![Change::SetCargoLockExists(code)],
        }
    }

    /// What is stored.
    pub fn changes(&self) -> (changes: Vec<Change>)
        ensures
            changes@ == self.stores(),
    {
        let mut changes: Vec<Change> = Vec::new();
        match self {
            Milestone::Downloaded => {
                changes.push(Change::SetFlag(CrateFlag::Download, true));
                changes.push(Change::SetFlag(CrateFlag::DownloadFailed, false));
            },
            Milestone::DownloadFailed => {
                changes.push(Change::SetFlag(CrateFlag::DownloadFailed, true));
            },
            Milestone::VersionHandled => {
                changes.push(Change::SetFlag(CrateFlag::VersionHandled, true));
            },
            Milestone::CompileHandled => {
                changes.push(Change::SetFlag(CrateFlag::CompileHandled, true));
            },
            Milestone::InitialCompileFailed => {
                changes.push(Change::SetFlag(CrateFlag::InitialCompileFailed, true));
            },
            Milestone::HeavyDepsSkipped(n) => {
                changes.push(Change::SetFlag(CrateFlag::HeavyDepsSkipped, true));
                changes.push(Change::SetHeavyDepsCount(*n));
            },
            Milestone::CargoLockSeen(code) => {
                changes.push(Change::SetCargoLockExists(*code));
            },
        }
        assert(changes@ =~= self.stores());
        changes
    }

    /// A crate after what happened to it was stored.
    pub open spec fn reached_by(self, record: RecordView) -> RecordView {
        changed(record, self.stores())
    }
}

proof fn lemma_changed(record: RecordView, milestone: Milestone)
    ensures
        milestone.stores().len() == 1 ==> milestone.reached_by(record)
            == milestone.stores()[0].made(record),
        milestone.stores().len() == 2 ==> milestone.reached_by(record)
            == milestone.stores()[1].made(milestone.stores()[0].made(record)),
{
    reveal_with_fuel(changed, 3);
    let changes = milestone.stores();
    if changes.len() == 1 {
        assert(changes.drop_last() =~= Seq::<Change>::empty());
    } else {
        assert(changes.drop_last().drop_last() =~= Seq::<Change>::empty());
        assert(changes.drop_last().last() == changes[0]);
    }
}

/// A crate leaves the queue of a task once what the task came to is stored:
/// whether its download succeeded or failed, whether its versions were read or
/// not, and however its compile run went.
pub proof fn law_done_crate_leaves_the_queue(record: RecordView, after_id: i32)
    ensures
        !unfetched(Milestone::Downloaded.reached_by(record)),
        !unfetched(Milestone::DownloadFailed.reached_by(record)),
        !versions_unhandled(Milestone::VersionHandled.reached_by(record)),
        !uncompiled(Milestone::CompileHandled.reached_by(record), after_id),
{
    lemma_changed(record, Milestone::Downloaded);
    lemma_changed(record, Milestone::DownloadFailed);
    lemma_changed(record, Milestone::VersionHandled);
    lemma_changed(record, Milestone::CompileHandled);
}

/// A crate whose download failed is kept out of what follows, until a download
/// succeeds.
pub proof fn law_failed_download_blocks(record: RecordView)
    ensures
        !versions_unhandled(Milestone::DownloadFailed.reached_by(record)),
        !Milestone::Downloaded.reached_by(
            Milestone::DownloadFailed.reached_by(record),
        ).flags[CrateFlag::DownloadFailed],
{
    let failed = Milestone::DownloadFailed.reached_by(record);
    lemma_changed(record, Milestone::DownloadFailed);
    lemma_changed(failed, Milestone::Downloaded);
}

/// The columns of a stored crate that a new import replaces.
pub open spec fn replaced_by_import() -> Seq<CrateColumn> {
    seq![
        CrateColumn::Name,
        CrateColumn::Homepage,
        CrateColumn::Analyzed,
        CrateColumn::Download,
        CrateColumn::CreatedAt,
        CrateColumn::UpdatedAt,
        CrateColumn::VersionNew,
        CrateColumn::DownloadFailed,
    ]
}

/// The columns of a stored crate that a new import replaces.
pub fn import_update_columns() -> (columns: Vec<CrateColumn>)
    ensures
        columns@ == replaced_by_import(),
{
    let mut columns: Vec<CrateColumn> = Vec::new();
    columns.push(CrateColumn::Name);
    columns.push(CrateColumn::Homepage);
    columns.push(CrateColumn::Analyzed);
    columns.push(CrateColumn::Download);
    columns.push(CrateColumn::CreatedAt);
    columns.push(CrateColumn::UpdatedAt);
    columns.push(CrateColumn::VersionNew);
    columns.push(CrateColumn::DownloadFailed);
    assert(columns@ =~= replaced_by_import());
    columns
}

/// The flag that an imported row brings.
pub open spec fn imported_flag(row: ImportView, flag: CrateFlag) -> bool {
    match flag {
        CrateFlag::Analyzed => row.analyzed,
        CrateFlag::Download => row.download,
        CrateFlag::DownloadFailed => row.download_failed,
        CrateFlag::VersionHandled => row.version_handled,
        _ => false,
    }
}

/// A stored crate after a new import of it: the columns that an import replaces
/// are those of the row, and the others stay.
pub open spec fn reimported(record: RecordView, row: ImportView) -> RecordView {
    let replaced = replaced_by_import();
    RecordView {
        name: if replaced.contains(CrateColumn::Name) {
            row.name
        } else {
            record.name
        },
        homepage: if replaced.contains(CrateColumn::Homepage) {
            row.homepage
        } else {
            record.homepage
        },
        created_at: if replaced.contains(CrateColumn::CreatedAt) {
            row.created_at
        } else {
            record.created_at
        },
        updated_at: if replaced.contains(CrateColumn::UpdatedAt) {
            row.updated_at
        } else {
            record.updated_at
        },
        version_new: if replaced.contains(CrateColumn::VersionNew) {
            Some(row.version_new)
        } else {
            record.version_new
        },
        flags: Map::new(
            |flag: CrateFlag| record.flags.contains_key(flag),
            |flag: CrateFlag|
                if replaced.contains(flag.stored_in()) {
                    imported_flag(row, flag)
                } else {
                    record.flags[flag]
                },
        ),
        ..record
    }
}

/// A new import of a crate replaces what the crate list says of it, and leaves
/// alone whether its versions were read and what its compile run came to.
pub proof fn law_reimport_replaces(record: RecordView, row: ImportView)
    requires
        forall|flag: CrateFlag| #[trigger] record.flags.contains_key(flag),
    ensures
        ({
            let after = reimported(record, row);
            &&& after.id == record.id
            &&& after.name == row.name
            &&& after.homepage == row.homepage
            &&& after.created_at == row.created_at
            &&& after.updated_at == row.updated_at
            &&& after.version_new == Some(row.version_new)
            &&& after.flags[CrateFlag::Analyzed] == row.analyzed
            &&& after.flags[CrateFlag::Download] == row.download
            &&& after.flags[CrateFlag::DownloadFailed] == row.download_failed
            &&& after.flags[CrateFlag::VersionHandled] == record.flags[CrateFlag::VersionHandled]
            &&& after.flags[CrateFlag::CompileHandled] == record.flags[CrateFlag::CompileHandled]
            &&& after.flags[CrateFlag::InitialCompileFailed]
                == record.flags[CrateFlag::InitialCompileFailed]
            &&& after.flags[CrateFlag::HeavyDepsSkipped]
                == record.flags[CrateFlag::HeavyDepsSkipped]
            &&& after.cargo_lock_exists == record.cargo_lock_exists
            &&& after.dep_update_errors == record.dep_update_errors
            &&& after.heavy_deps_count == record.heavy_deps_count
        }),
        forall|flag: CrateFlag| #[trigger] reimported(record, row).flags.contains_key(flag),
{
    let replaced = replaced_by_import();
    assert(replaced[0] == CrateColumn::Name);
    assert(replaced[1] == CrateColumn::Homepage);
    assert(replaced[2] == CrateColumn::Analyzed);
    assert(replaced[3] == CrateColumn::Download);
    assert(replaced[4] == CrateColumn::CreatedAt);
    assert(replaced[5] == CrateColumn::UpdatedAt);
    assert(replaced[6] == CrateColumn::VersionNew);
    assert(replaced[7] == CrateColumn::DownloadFailed);
    assert(record.flags.contains_key(CrateFlag::Analyzed));
    assert(record.flags.contains_key(CrateFlag::Download));
    assert(record.flags.contains_key(CrateFlag::DownloadFailed));
    assert(record.flags.contains_key(CrateFlag::VersionHandled));
    assert(record.flags.contains_key(CrateFlag::CompileHandled));
    assert(record.flags.contains_key(CrateFlag::InitialCompileFailed));
    assert(record.flags.contains_key(CrateFlag::HeavyDepsSkipped));
    assert forall|flag: CrateFlag| #[trigger]
        reimported(record, row).flags.contains_key(flag) by {
        assert(record.flags.contains_key(flag));
    }
}

/// A new import of a crate with a version that can be downloaded queues it for
/// download again.
pub proof fn law_reimport_queues_again(record: RecordView, row: ImportView)
    requires
        forall|flag: CrateFlag| #[trigger] record.flags.contains_key(flag),
        row.version_new != ""@,
        row.version_new != "yanked"@,
        !row.download,
        !row.download_failed,
    ensures
        unfetched(reimported(record, row)),
{
    law_reimport_replaces(record, row);
}

/// A crate that was not stored before, as it is stored: the columns that the
/// crate list does not give hold what they hold where nothing was stored.
pub open spec fn inserted(row: ImportView) -> RecordView {
    RecordView {
        id: row.id,
        name: row.name,
        homepage: row.homepage,
        created_at: row.created_at,
        updated_at: row.updated_at,
        version_new: Some(row.version_new),
        flags: Map::new(|flag: CrateFlag| true, |flag: CrateFlag| imported_flag(row, flag)),
        cargo_lock_exists: 0,
        dep_update_errors: None,
        heavy_deps_count: 0,
    }
}

/// Whether every crate of the table stands under its id, with all its flags.
pub open spec fn numbered(table: Map<int, RecordView>) -> bool {
    forall|id: int| #[trigger]
        table.contains_key(id) ==> table[id].id == id && forall|flag: CrateFlag| #[trigger]
            table[id].flags.contains_key(flag)
}

/// The table after one crate of the list was stored.
pub open spec fn with_crate(table: Map<int, RecordView>, row: ImportView) -> Map<int, RecordView> {
    table.insert(
        row.id,
        if table.contains_key(row.id) {
            reimported(table[row.id], row)
        } else {
            inserted(row)
        },
    )
}

/// The table after the crates of the list were stored, one after another.
pub open spec fn with_crates(table: Map<int, RecordView>, rows: Seq<ImportView>) -> Map<
    int,
    RecordView,
>
    decreases rows.len(),
{
    if rows.len() == 0 {
        table
    } else {
        with_crate(with_crates(table, rows.drop_last()), rows.last())
    }
}

/// Whether no two of the rows have the same id.
pub open spec fn distinct_ids(rows: Seq<ImportView>) -> bool {
    forall|i: int, j: int|
        0 <= i < j < rows.len() ==> (#[trigger] rows[i]).id != (#[trigger] rows[j]).id
}

/// Whether one of the rows has the id.
pub open spec fn has_id(rows: Seq<ImportView>, id: int) -> bool {
    exists|i: int| 0 <= i < rows.len() && (#[trigger] rows[i]).id == id
}

/// What storing a part of the crate list does to the table. A crate with a new
/// id is stored as given; one that is there has its columns replaced as a new
/// import replaces them; all others are as they were.
pub proof fn law_crates_are_stored(table: Map<int, RecordView>, rows: Seq<ImportView>)
    requires
        numbered(table),
        distinct_ids(rows),
    ensures
        numbered(with_crates(table, rows)),
        forall|i: int|
            0 <= i < rows.len() ==> {
                let id = (#[trigger] rows[i]).id;
                &&& with_crates(table, rows).contains_key(id)
                &&& with_crates(table, rows)[id] == if table.contains_key(id) {
                    reimported(table[id], rows[i])
                } else {
                    inserted(rows[i])
                }
            },
        forall|id: int|
            !has_id(rows, id) ==> (#[trigger] with_crates(table, rows).contains_key(id)
                <==> table.contains_key(id)),
        forall|id: int|
            !has_id(rows, id) && table.contains_key(id) ==> #[trigger] with_crates(table, rows)[id]
                == table[id],
    decreases rows.len(),
{
    if rows.len() > 0 {
        let earlier = rows.drop_last();
        let last = rows.last();
        assert(distinct_ids(earlier)) by {
            assert forall|i: int, j: int| 0 <= i < j < earlier.len() implies (
            #[trigger] earlier[i]).id != (#[trigger] earlier[j]).id by {
                assert(rows[i].id != rows[j].id);
            }
        }
        law_crates_are_stored(table, earlier);
        let before = with_crates(table, earlier);
        let after = with_crates(table, rows);
        assert(!has_id(earlier, last.id)) by {
            assert forall|i: int| 0 <= i < earlier.len() implies (#[trigger] earlier[i]).id
                != last.id by {
                assert(rows[i].id != rows[rows.len() - 1].id);
            }
        }
        if before.contains_key(last.id) {
            law_reimport_replaces(before[last.id], last);
        }
        assert(numbered(after)) by {
            assert forall|id: int| #[trigger] after.contains_key(id) implies after[id].id == id
                && forall|flag: CrateFlag| #[trigger] after[id].flags.contains_key(flag) by {
                if id != last.id {
                    assert(before.contains_key(id));
                }
            }
        }
        assert forall|i: int| 0 <= i < rows.len() implies ({
            let id = (#[trigger] rows[i]).id;
            &&& after.contains_key(id)
            &&& after[id] == if table.contains_key(id) {
                reimported(table[id], rows[i])
            } else {
                inserted(rows[i])
            }
        }) by {
            if i < earlier.len() {
                assert(rows[i] == earlier[i]);
                assert(rows[i].id != rows[rows.len() - 1].id);
            }
        }
        assert forall|id: int| !has_id(rows, id) implies !has_id(earlier, id) && id
            != last.id by {
            assert(rows[rows.len() - 1].id == last.id);
            if has_id(earlier, id) {
                let i = choose|i: int| 0 <= i < earlier.len() && (#[trigger] earlier[i]).id == id;
                assert(rows[i].id == id);
            }
        }
    }
}

/// The columns of a stored version that a new reading of the index replaces.
pub open spec fn replaced_by_index() -> Seq<VersionColumn> {
    seq![VersionColumn::Deps, VersionColumn::Features2, VersionColumn::Pubtime]
}

/// The columns of a stored version that a new reading of the index replaces.
pub fn version_update_columns() -> (columns: Vec<VersionColumn>)
    ensures
        columns@ == replaced_by_index(),
{
    let mut columns: Vec<VersionColumn> = Vec::new();
    columns.push(VersionColumn::Deps);
    columns.push(VersionColumn::Features2);
    columns.push(VersionColumn::Pubtime);
    assert(columns@ =~= replaced_by_index());
    columns
}

/// A stored version after a new reading of it.
pub open spec fn reread(stored: StoredView, row: StoredView) -> StoredView {
    let replaced = replaced_by_index();
    StoredView {
        row: RowView {
            deps: if replaced.contains(VersionColumn::Deps) {
                row.row.deps
            } else {
                stored.row.deps
            },
            features2: if replaced.contains(VersionColumn::Features2) {
                row.row.features2
            } else {
                stored.row.features2
            },
            pubtime: if replaced.contains(VersionColumn::Pubtime) {
                row.row.pubtime
            } else {
                stored.row.pubtime
            },
            ..stored.row
        },
        ..stored
    }
}

/// Nothing of an earlier reading of a version is left after a new one.
pub proof fn law_reread_replaces(stored: StoredView, row: StoredView)
    requires
        stored.crate_id == row.crate_id,
        stored.row.version == row.row.version,
    ensures
        reread(stored, row) == row,
{
    let replaced = replaced_by_index();
    assert(replaced[0] == VersionColumn::Deps);
    assert(replaced[1] == VersionColumn::Features2);
    assert(replaced[2] == VersionColumn::Pubtime);
}

/// The number of rows that a batch stores; none where there is nothing to send
/// to the database.
pub fn rows_to_store(rows: usize) -> (count: Option<u64>)
    ensures
        match count {
            Some(n) => n == rows && rows > 0,
            None => rows == 0,
        },
{
    if rows == 0 {
        None
    } else {
        Some(rows as u64)
    }
}

/// What tells the stored versions apart.
pub struct VersionKey {
    pub crate_id: i32,
    pub version: Seq<char>,
}

/// The key of a version.
pub open spec fn key_of(row: StoredView) -> VersionKey {
    VersionKey { crate_id: row.crate_id, version: row.row.version }
}

/// A row of the table of versions, with the number that the database gave it.
pub struct VersionRecord {
    pub id: int,
    pub stored: StoredView,
}

/// Whether every row of the table stands under its key.
pub open spec fn keyed(table: Map<VersionKey, VersionRecord>) -> bool {
    forall|key: VersionKey| #[trigger]
        table.contains_key(key) ==> key_of(table[key].stored) == key
}

/// The table after one version was stored: a row that is there keeps its number
/// and gets the columns that are replaced; else there is a new row, numbered as
/// `ids` says.
pub open spec fn with_version(
    table: Map<VersionKey, VersionRecord>,
    row: StoredView,
    ids: spec_fn(VersionKey) -> int,
) -> Map<VersionKey, VersionRecord> {
    let key = key_of(row);
    table.insert(
        key,
        if table.contains_key(key) {
            VersionRecord { id: table[key].id, stored: reread(table[key].stored, row) }
        } else {
            VersionRecord { id: ids(key), stored: row }
        },
    )
}

/// The table after the versions were stored, one after another.
pub open spec fn with_versions(
    table: Map<VersionKey, VersionRecord>,
    rows: Seq<StoredView>,
    ids: spec_fn(VersionKey) -> int,
) -> Map<VersionKey, VersionRecord>
    decreases rows.len(),
{
    if rows.len() == 0 {
        table
    } else {
        with_version(with_versions(table, rows.drop_last(), ids), rows.last(), ids)
    }
}

/// Whether no two of the rows have the same key.
pub open spec fn distinct_keys(rows: Seq<StoredView>) -> bool {
    forall|i: int, j: int|
        0 <= i < j < rows.len() ==> key_of(#[trigger] rows[i]) != key_of(#[trigger] rows[j])
}

/// Whether one of the rows has the key.
pub open spec fn has_key(rows: Seq<StoredView>, key: VersionKey) -> bool {
    exists|i: int| 0 <= i < rows.len() && key_of(#[trigger] rows[i]) == key
}

/// What storing versions does to the table. Each of them stands there once, as
/// it was given, under its old number where it had one. All other rows are as
/// they were.
pub proof fn law_versions_are_stored(
    table: Map<VersionKey, VersionRecord>,
    rows: Seq<StoredView>,
    ids: spec_fn(VersionKey) -> int,
)
    requires
        keyed(table),
        distinct_keys(rows),
    ensures
        keyed(with_versions(table, rows, ids)),
        forall|i: int|
            0 <= i < rows.len() ==> {
                let key = key_of(#[trigger] rows[i]);
                &&& with_versions(table, rows, ids).contains_key(key)
                &&& with_versions(table, rows, ids)[key].stored == rows[i]
                &&& table.contains_key(key) ==> with_versions(table, rows, ids)[key].id
                    == table[key].id
            },
        forall|key: VersionKey|
            !has_key(rows, key) ==> (#[trigger] with_versions(table, rows, ids).contains_key(key)
                <==> table.contains_key(key)),
        forall|key: VersionKey|
            !has_key(rows, key) && table.contains_key(key) ==> #[trigger] with_versions(
                table,
                rows,
                ids,
            )[key] == table[key],
    decreases rows.len(),
{
    if rows.len() > 0 {
        let earlier = rows.drop_last();
        let last = rows.last();
        assert(distinct_keys(earlier)) by {
            assert forall|i: int, j: int| 0 <= i < j < earlier.len() implies key_of(
                #[trigger] earlier[i],
            ) != key_of(#[trigger] earlier[j]) by {
                assert(key_of(rows[i]) != key_of(rows[j]));
            }
        }
        law_versions_are_stored(table, earlier, ids);
        let before = with_versions(table, earlier, ids);
        let after = with_versions(table, rows, ids);
        let key = key_of(last);
        assert(!has_key(earlier, key)) by {
            assert forall|i: int| 0 <= i < earlier.len() implies key_of(#[trigger] earlier[i])
                != key by {
                assert(key_of(rows[i]) != key_of(rows[rows.len() - 1]));
            }
        }
        if before.contains_key(key) {
            law_reread_replaces(before[key].stored, last);
        }
        assert(after[key].stored == last);
        assert forall|i: int| 0 <= i < rows.len() implies ({
            let k = key_of(#[trigger] rows[i]);
            &&& after.contains_key(k)
            &&& after[k].stored == rows[i]
            &&& table.contains_key(k) ==> after[k].id == table[k].id
        }) by {
            if i < earlier.len() {
                assert(rows[i] == earlier[i]);
                assert(key_of(rows[i]) != key_of(rows[rows.len() - 1]));
            }
        }
        assert forall|k: VersionKey| !has_key(rows, k) implies !has_key(earlier, k) && k != key by {
            assert(key_of(rows[rows.len() - 1]) == key);
            if has_key(earlier, k) {
                let i = choose|i: int|
                    0 <= i < earlier.len() && key_of(#[trigger] earlier[i]) == k;
                assert(key_of(rows[i]) == k);
            }
        }
    }
}

/// Storing the same versions again leaves the table as it is, whatever numbers
/// the database would give to new rows.
pub proof fn law_storing_again_changes_nothing(
    table: Map<VersionKey, VersionRecord>,
    rows: Seq<StoredView>,
    ids: spec_fn(VersionKey) -> int,
    later_ids: spec_fn(VersionKey) -> int,
)
    requires
        keyed(table),
        distinct_keys(rows),
    ensures
        with_versions(with_versions(table, rows, ids), rows, later_ids) == with_versions(
            table,
            rows,
            ids,
        ),
{
    let once = with_versions(table, rows, ids);
    law_versions_are_stored(table, rows, ids);
    law_versions_are_stored(once, rows, later_ids);
    let twice = with_versions(once, rows, later_ids);
    assert forall|key: VersionKey| (#[trigger] twice.contains_key(key) <==> once.contains_key(key))
        && (once.contains_key(key) ==> twice[key] == once[key]) by {
        if has_key(rows, key) {
            let i = choose|i: int| 0 <= i < rows.len() && key_of(#[trigger] rows[i]) == key;
            assert(once.contains_key(key_of(rows[i])));
            assert(twice.contains_key(key_of(rows[i])));
        }
    }
    assert(twice =~= once);
}

/// Flags and texts are stored under their own names.
pub proof fn law_stored_under_its_name(flag: CrateFlag, text: CrateText)
    ensures
        flag == CrateFlag::Analyzed <==> flag.stored_in() == CrateColumn::Analyzed,
        flag == CrateFlag::Download <==> flag.stored_in() == CrateColumn::Download,
        flag == CrateFlag::DownloadFailed <==> flag.stored_in() == CrateColumn::DownloadFailed,
        flag == CrateFlag::VersionHandled <==> flag.stored_in() == CrateColumn::VersionHandled,
        flag == CrateFlag::CompileHandled <==> flag.stored_in() == CrateColumn::CompileHandled,
        flag == CrateFlag::InitialCompileFailed <==> flag.stored_in()
            == CrateColumn::InitialCompileFailed,
        flag == CrateFlag::HeavyDepsSkipped <==> flag.stored_in() == CrateColumn::HeavyDepsSkipped,
        text == CrateText::Name <==> text.stored_in() == CrateColumn::Name,
        text == CrateText::VersionNew <==> text.stored_in() == CrateColumn::VersionNew,
{
}

/// A condition looks at one column. One on a flag holds exactly after the flag
/// was set so; one on a text that is missing never holds; and one on the id holds
/// from the next id on.
pub proof fn law_condition_looks_at_one_column(
    record: RecordView,
    flag: CrateFlag,
    other: CrateFlag,
    value: bool,
    name: Seq<char>,
    not: &'static str,
    id: i32,
)
    ensures
        ({
            let set = Change::SetFlag(flag, value).made(record);
            &&& Condition::FlagIs(flag, value).holds(set)
            &&& !Condition::FlagIs(flag, !value).holds(set)
            &&& other != flag ==> Condition::FlagIs(other, value).holds(set) == Condition::FlagIs(
                other,
                value,
            ).holds(record)
            &&& Condition::TextIsNot(CrateText::Name, not).holds(record) <==> record.name != not@
            &&& Condition::NotNull(CrateText::Name).holds(record)
            &&& Condition::NotNull(CrateText::VersionNew).holds(record) <==> record.version_new
                is Some
            &&& Condition::TextIsNot(CrateText::VersionNew, not).holds(record)
                <==> Condition::NotNull(CrateText::VersionNew).holds(record) && record.version_new
                != Some(not@)
            &&& Condition::IdAbove(id).holds(record) <==> record.id >= id + 1
        }),
{
}

/// Conditions are met together exactly where each of them is met.
pub proof fn law_conditions_add_up(record: RecordView, conditions: Seq<Condition>, more: Condition)
    ensures
        meets(record, Seq::empty()),
        meets(record, conditions.push(more)) <==> meets(record, conditions) && more.holds(record),
{
    if meets(record, conditions.push(more)) {
        assert forall|i: int| 0 <= i < conditions.len() implies (#[trigger] conditions[i]).holds(
            record,
        ) by {
            assert(conditions.push(more)[i] == conditions[i]);
        }
        assert(conditions.push(more)[conditions.len() as int] == more);
    }
}

/// What is stored of what happened to a crate, column by column. Everything that
/// is not named stays as it was.
pub proof fn law_milestone_by_column(record: RecordView, n: i32, flag: CrateFlag)
    ensures
        ({
            let after = Milestone::Downloaded.reached_by(record);
            &&& after.flags[CrateFlag::Download] && !after.flags[CrateFlag::DownloadFailed]
            &&& flag != CrateFlag::Download && flag != CrateFlag::DownloadFailed
                ==> after.flags[flag] == record.flags[flag]
            &&& after == RecordView { flags: after.flags, ..record }
        }),
        ({
            let after = Milestone::DownloadFailed.reached_by(record);
            &&& after.flags[CrateFlag::DownloadFailed]
            &&& flag != CrateFlag::DownloadFailed ==> after.flags[flag] == record.flags[flag]
            &&& after == RecordView { flags: after.flags, ..record }
        }),
        ({
            let after = Milestone::VersionHandled.reached_by(record);
            &&& after.flags[CrateFlag::VersionHandled]
            &&& flag != CrateFlag::VersionHandled ==> after.flags[flag] == record.flags[flag]
            &&& after == RecordView { flags: after.flags, ..record }
        }),
        ({
            let after = Milestone::CompileHandled.reached_by(record);
            &&& after.flags[CrateFlag::CompileHandled]
            &&& flag != CrateFlag::CompileHandled ==> after.flags[flag] == record.flags[flag]
            &&& after == RecordView { flags: after.flags, ..record }
        }),
        ({
            let after = Milestone::InitialCompileFailed.reached_by(record);
            &&& after.flags[CrateFlag::InitialCompileFailed]
            &&& flag != CrateFlag::InitialCompileFailed ==> after.flags[flag] == record.flags[flag]
            &&& after == RecordView { flags: after.flags, ..record }
        }),
        ({
            let after = Milestone::HeavyDepsSkipped(n).reached_by(record);
            &&& after.flags[CrateFlag::HeavyDepsSkipped]
            &&& after.heavy_deps_count == n
            &&& flag != CrateFlag::HeavyDepsSkipped ==> after.flags[flag] == record.flags[flag]
            &&& after == RecordView { flags: after.flags, heavy_deps_count: n, ..record }
        }),
        ({
            let after = Milestone::CargoLockSeen(n).reached_by(record);
            after == RecordView { cargo_lock_exists: n, ..record }
        }),
{
    lemma_changed(record, Milestone::Downloaded);
    lemma_changed(record, Milestone::DownloadFailed);
    lemma_changed(record, Milestone::VersionHandled);
    lemma_changed(record, Milestone::CompileHandled);
    lemma_changed(record, Milestone::InitialCompileFailed);
    lemma_changed(record, Milestone::HeavyDepsSkipped(n));
    lemma_changed(record, Milestone::CargoLockSeen(n));
}

/// Which columns a new import and a new reading of the index replace: never the
/// id of a row, nor what tells the versions apart, nor what the programs noted.
pub proof fn law_replaced_columns(c: CrateColumn, v: VersionColumn)
    ensures
        replaced_by_import().contains(c) <==> {
            ||| c == CrateColumn::Name
            ||| c == CrateColumn::Homepage
            ||| c == CrateColumn::Analyzed
            ||| c == CrateColumn::Download
            ||| c == CrateColumn::CreatedAt
            ||| c == CrateColumn::UpdatedAt
            ||| c == CrateColumn::VersionNew
            ||| c == CrateColumn::DownloadFailed
        },
        replaced_by_import().no_duplicates(),
        replaced_by_index().contains(v) <==> {
            ||| v == VersionColumn::Deps
            ||| v == VersionColumn::Features2
            ||| v == VersionColumn::Pubtime
        },
        replaced_by_index().no_duplicates(),
{
    let import = replaced_by_import();
    assert(import[0] == CrateColumn::Name);
    assert(import[1] == CrateColumn::Homepage);
    assert(import[2] == CrateColumn::Analyzed);
    assert(import[3] == CrateColumn::Download);
    assert(import[4] == CrateColumn::CreatedAt);
    assert(import[5] == CrateColumn::UpdatedAt);
    assert(import[6] == CrateColumn::VersionNew);
    assert(import[7] == CrateColumn::DownloadFailed);
    let index = replaced_by_index();
    assert(index[0] == VersionColumn::Deps);
    assert(index[1] == VersionColumn::Features2);
    assert(index[2] == VersionColumn::Pubtime);
}

/// A crate that is stored for the first time holds what the crate list gives,
/// and nothing has happened to it yet.
pub proof fn law_first_import(row: ImportView, flag: CrateFlag)
    ensures
        ({
            let stored = inserted(row);
            &&& stored.id == row.id
            &&& stored.name == row.name
            &&& stored.homepage == row.homepage
            &&& stored.created_at == row.created_at
            &&& stored.updated_at == row.updated_at
            &&& stored.version_new == Some(row.version_new)
            &&& stored.flags.contains_key(flag)
            &&& stored.flags[CrateFlag::Analyzed] == row.analyzed
            &&& stored.flags[CrateFlag::Download] == row.download
            &&& stored.flags[CrateFlag::DownloadFailed] == row.download_failed
            &&& stored.flags[CrateFlag::VersionHandled] == row.version_handled
            &&& !stored.flags[CrateFlag::CompileHandled]
            &&& !stored.flags[CrateFlag::InitialCompileFailed]
            &&& !stored.flags[CrateFlag::HeavyDepsSkipped]
            &&& stored.cargo_lock_exists == 0
            &&& stored.dep_update_errors is None
            &&& stored.heavy_deps_count == 0
        }),
{
}

/// Two versions are one row exactly where they agree in the crate and in the
/// version.
pub proof fn law_versions_are_told_apart(a: StoredView, b: StoredView)
    ensures
        key_of(a) == key_of(b) <==> a.crate_id == b.crate_id && a.row.version == b.row.version,
{
}

/// What decides whether a crate is queued, one thing at a time. A crate with
/// clear flags waits for its download exactly where there is a version other than
/// the empty one and the mark of yanked crates; it waits for the reading of its
/// versions exactly where it has a name; and it waits for its compile run exactly
/// where its id comes after the last. Each flag that a queue looks at takes the
/// crate out of that queue, and no other flag does.
pub proof fn law_queues_one_thing_at_a_time(record: RecordView, flag: CrateFlag, after_id: i32)
    requires
        !record.flags[CrateFlag::Download],
        !record.flags[CrateFlag::DownloadFailed],
        !record.flags[CrateFlag::VersionHandled],
        !record.flags[CrateFlag::CompileHandled],
    ensures
        record.version_new is None ==> !unfetched(record),
        record.version_new matches Some(version) ==> (unfetched(record) <==> version != ""@
            && version != "yanked"@),
        versions_unhandled(record) <==> record.name != ""@,
        uncompiled(record, after_id) <==> record.id > after_id,
        ({
            let set = Change::SetFlag(flag, true).made(record);
            &&& flag == CrateFlag::Download || flag == CrateFlag::DownloadFailed ==> !unfetched(set)
            &&& flag != CrateFlag::Download && flag != CrateFlag::DownloadFailed ==> unfetched(set)
                == unfetched(record)
            &&& flag == CrateFlag::VersionHandled || flag == CrateFlag::DownloadFailed
                ==> !versions_unhandled(set)
            &&& flag != CrateFlag::VersionHandled && flag != CrateFlag::DownloadFailed
                ==> versions_unhandled(set) == versions_unhandled(record)
            &&& flag == CrateFlag::CompileHandled ==> !uncompiled(set, after_id)
            &&& flag != CrateFlag::CompileHandled ==> uncompiled(set, after_id) == uncompiled(
                record,
                after_id,
            )
        }),
{
}

} // verus!
