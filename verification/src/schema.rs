//! The tables of the database, and the migrations that make them.

use vstd::prelude::*;

verus! {

/// The tables.
#[derive(Debug, Clone, Copy, PartialEq, Eq, Structural)]
pub enum Table {
    Crates,
    CrateVersionsIndex,
}

/// The columns of the crates.
#[derive(Debug, Clone, Copy, PartialEq, Eq, Structural)]
pub enum CrateColumn {
    Id,
    Name,
    Homepage,
    Analyzed,
    Download,
    CreatedAt,
    UpdatedAt,
    VersionNew,
    DownloadFailed,
    VersionHandled,
    CompileHandled,
    InitialCompileFailed,
    CargoLockExists,
    DepUpdateErrors,
    HeavyDepsSkipped,
    HeavyDepsCount,
}

/// The columns of the versions.
#[derive(Debug, Clone, Copy, PartialEq, Eq, Structural)]
pub enum VersionColumn {
    Id,
    CrateId,
    Version,
    Deps,
    Features2,
    Pubtime,
}

/// A column of one of the tables.
#[derive(Debug, Clone, Copy, PartialEq, Eq, Structural)]
pub enum Column {
    Crates(CrateColumn),
    Versions(VersionColumn),
}

impl Table {
    pub open spec fn named(self) -> Seq<char> {
        match self {
            Table::Crates => "crates"@,
            Table::CrateVersionsIndex => "crate_versions_index"@,
        }
    }

    /// The table's name in the database.
    pub fn name(&self) -> (name: &'static str)
        ensures
            name@ == self.named(),
    {
        match self {
            Table::Crates => "crates",
            Table::CrateVersionsIndex => "crate_versions_index",
        }
    }
}

impl CrateColumn {
    pub open spec fn named(self) -> Seq<char> {
        match self {
            CrateColumn::Id => "id"@,
            CrateColumn::Name => "name"@,
            CrateColumn::Homepage => "homepage"@,
            CrateColumn::Analyzed => "analyzed"@,
            CrateColumn::Download => "download"@,
            CrateColumn::CreatedAt => "created_at"@,
            CrateColumn::UpdatedAt => "updated_at"@,
            CrateColumn::VersionNew => "version_new"@,
            CrateColumn::DownloadFailed => "download_failed"@,
            CrateColumn::VersionHandled => "version_handled"@,
            CrateColumn::CompileHandled => "compile_handled"@,
            CrateColumn::InitialCompileFailed => "initial_compile_failed"@,
            CrateColumn::CargoLockExists => "cargo_lock_exists"@,
            CrateColumn::DepUpdateErrors => "dep_update_errors"@,
            CrateColumn::HeavyDepsSkipped => "heavy_deps_skipped"@,
            CrateColumn::HeavyDepsCount => "heavy_deps_count"@,
        }
    }

    /// The column's name in the database.
    pub fn name(&self) -> (name: &'static str)
        ensures
            name@ == self.named(),
    {
        match self {
            CrateColumn::Id => "id",
            CrateColumn::Name => "name",
            CrateColumn::Homepage => "homepage",
            CrateColumn::Analyzed => "analyzed",
            CrateColumn::Download => "download",
            CrateColumn::CreatedAt => "created_at",
            CrateColumn::UpdatedAt => "updated_at",
            CrateColumn::VersionNew => "version_new",
            CrateColumn::DownloadFailed => "download_failed",
            CrateColumn::VersionHandled => "version_handled",
            CrateColumn::CompileHandled => "compile_handled",
            CrateColumn::InitialCompileFailed => "initial_compile_failed",
            CrateColumn::CargoLockExists => "cargo_lock_exists",
            CrateColumn::DepUpdateErrors => "dep_update_errors",
            CrateColumn::HeavyDepsSkipped => "heavy_deps_skipped",
            CrateColumn::HeavyDepsCount => "heavy_deps_count",
        }
    }
}

impl VersionColumn {
    pub open spec fn named(self) -> Seq<char> {
        match self {
            VersionColumn::Id => "id"@,
            VersionColumn::CrateId => "crate_id"@,
            VersionColumn::Version => "version"@,
            VersionColumn::Deps => "deps"@,
            VersionColumn::Features2 => "features2"@,
            VersionColumn::Pubtime => "pubtime"@,
        }
    }

    /// The column's name in the database.
    pub fn name(&self) -> (name: &'static str)
        ensures
            name@ == self.named(),
    {
        match self {
            VersionColumn::Id => "id",
            VersionColumn::CrateId => "crate_id",
            VersionColumn::Version => "version",
            VersionColumn::Deps => "deps",
            VersionColumn::Features2 => "features2",
            VersionColumn::Pubtime => "pubtime",
        }
    }
}

impl Column {
    pub open spec fn named(self) -> Seq<char> {
        match self {
            Column::Crates(c) => c.named(),
            Column::Versions(c) => c.named(),
        }
    }

    /// The column's name in the database.
    pub fn name(&self) -> (name: &'static str)
        ensures
            name@ == self.named(),
    {
        match self {
            Column::Crates(c) => c.name(),
            Column::Versions(c) => c.name(),
        }
    }
}

/// What a column holds.
#[derive(Debug, Clone, Copy, PartialEq, Eq, Structural)]
pub enum ColumnKind {
    Integer,
    Text,
    Boolean,
    Timestamp,
    JsonBinary,
}

/// What a column holds where nothing was stored.
#[derive(Debug, Clone, Copy, PartialEq, Eq, Structural)]
pub enum ColumnDefault {
    Nothing,
    False,
    Zero,
    EmptyText,
    Now,
}

/// How a column is made.
#[derive(Debug, Clone, Copy, PartialEq, Eq, Structural)]
pub struct ColumnSpec {
    pub column: Column,
    pub kind: ColumnKind,
    pub not_null: bool,
    pub default: ColumnDefault,
    pub primary_key: bool,
    pub auto_increment: bool,
}

/// A column that may be empty.
pub open spec fn optional(column: Column, kind: ColumnKind) -> ColumnSpec {
    ColumnSpec {
        column,
        kind,
        not_null: false,
        default: ColumnDefault::Nothing,
        primary_key: false,
        auto_increment: false,
    }
}

/// A column that is never empty.
pub open spec fn required(column: Column, kind: ColumnKind, default: ColumnDefault) -> ColumnSpec {
    ColumnSpec { not_null: true, default, ..optional(column, kind) }
}

/// The column that numbers the rows.
pub open spec fn key(column: Column) -> ColumnSpec {
    ColumnSpec {
        primary_key: true,
        auto_increment: true,
        ..required(column, ColumnKind::Integer, ColumnDefault::Nothing)
    }
}

fn optional_column(column: Column, kind: ColumnKind) -> (made: ColumnSpec)
    ensures
        made == optional(column, kind),
{
    ColumnSpec {
        column,
        kind,
        not_null: false,
        default: ColumnDefault::Nothing,
        primary_key: false,
        auto_increment: false,
    }
}

fn required_column(column: Column, kind: ColumnKind, default: ColumnDefault) -> (made: ColumnSpec)
    ensures
        made == required(column, kind, default),
{
    ColumnSpec {
        column,
        kind,
        not_null: true,
        default,
        primary_key: false,
        auto_increment: false,
    }
}

fn key_column(column: Column) -> (made: ColumnSpec)
    ensures
        made == key(column),
{
    ColumnSpec {
        column,
        kind: ColumnKind::Integer,
        not_null: true,
        default: ColumnDefault::Nothing,
        primary_key: true,
        auto_increment: true,
    }
}

/// The migrations.
#[derive(Debug, Clone, Copy, PartialEq, Eq, Structural)]
pub enum Migration {
    CreateCratesTable,
    AddDownloadRetryFields,
    AddVersionHandledToCrates,
    CreateCrateVersionsIndexTable,
    AddCompileFieldsToCrates,
    AddHeavyDepsSkipFieldsToCrates,
}

impl Migration {
    pub open spec fn named(self) -> Seq<char> {
        match self {
            Migration::CreateCratesTable => "m20260425_000001_create_crates_table"@,
            Migration::AddDownloadRetryFields => "m20260425_000002_add_download_retry_fields"@,
            Migration::AddVersionHandledToCrates => {
                "m20260426_000003_add_version_handled_to_crates"@
            },
            Migration::CreateCrateVersionsIndexTable => {
                "m20260426_000004_create_crate_versions_index_table"@
            },
            Migration::AddCompileFieldsToCrates => {
                "m20260427_000005_add_compile_fields_to_crates"@
            },
            Migration::AddHeavyDepsSkipFieldsToCrates => {
                "m20260512_000006_add_heavy_deps_skip_fields_to_crates"@
            },
        }
    }

    /// The name under which the migration is recorded.
    pub fn name(&self) -> (name: &'static str)
        ensures
            name@ == self.named(),
    {
        match self {
            Migration::CreateCratesTable => "m20260425_000001_create_crates_table",
            Migration::AddDownloadRetryFields => "m20260425_000002_add_download_retry_fields",
            Migration::AddVersionHandledToCrates => {
                "m20260426_000003_add_version_handled_to_crates"
            },
            Migration::CreateCrateVersionsIndexTable => {
                "m20260426_000004_create_crate_versions_index_table"
            },
            Migration::AddCompileFieldsToCrates => "m20260427_000005_add_compile_fields_to_crates",
            Migration::AddHeavyDepsSkipFieldsToCrates => {
                "m20260512_000006_add_heavy_deps_skip_fields_to_crates"
            },
        }
    }

    /// The table that the migration is about.
    pub open spec fn about(self) -> Table {
        match self {
            Migration::CreateCrateVersionsIndexTable => Table::CrateVersionsIndex,
            _ => Table::Crates,
        }
    }

    pub fn table(&self) -> (table: Table)
        ensures
            table == self.about(),
    {
        match self {
            Migration::CreateCrateVersionsIndexTable => Table::CrateVersionsIndex,
            _ => Table::Crates,
        }
    }

    /// Whether the migration makes its table.
    pub open spec fn creates(self) -> bool {
        self == Migration::CreateCratesTable || self == Migration::CreateCrateVersionsIndexTable
    }

    /// The columns that the migration brings.
    pub open spec fn brings(self) -> Seq<ColumnSpec> {
        match self {
            Migration::CreateCratesTable => seq![
                key(Column::Crates(CrateColumn::Id)),
                required(Column::Crates(CrateColumn::Name), ColumnKind::Text, ColumnDefault::Nothing),
                optional(Column::Crates(CrateColumn::Homepage), ColumnKind::Text),
                required(Column::Crates(CrateColumn::Analyzed), ColumnKind::Boolean, ColumnDefault::False),
                required(Column::Crates(CrateColumn::Download), ColumnKind::Boolean, ColumnDefault::False),
                required(Column::Crates(CrateColumn::CreatedAt), ColumnKind::Timestamp, ColumnDefault::Now),
                required(Column::Crates(CrateColumn::UpdatedAt), ColumnKind::Timestamp, ColumnDefault::Now),
                required(
                    Column::Crates(CrateColumn::VersionNew),
                    ColumnKind::Text,
                    ColumnDefault::EmptyText,
                ),
            ],
            Migration::AddDownloadRetryFields => seq![
                required(
                    Column::Crates(CrateColumn::DownloadFailed),
                    ColumnKind::Boolean,
                    ColumnDefault::False,
                ),
            ],
            Migration::AddVersionHandledToCrates => seq![
                required(
                    Column::Crates(CrateColumn::VersionHandled),
                    ColumnKind::Boolean,
                    ColumnDefault::False,
                ),
            ],
            Migration::CreateCrateVersionsIndexTable => seq![
                key(Column::Versions(VersionColumn::Id)),
                required(
                    Column::Versions(VersionColumn::CrateId),
                    ColumnKind::Integer,
                    ColumnDefault::Nothing,
                ),
                required(
                    Column::Versions(VersionColumn::Version),
                    ColumnKind::Text,
                    ColumnDefault::Nothing,
                ),
                required(
                    Column::Versions(VersionColumn::Deps),
                    ColumnKind::JsonBinary,
                    ColumnDefault::Nothing,
                ),
                optional(Column::Versions(VersionColumn::Features2), ColumnKind::JsonBinary),
                optional(Column::Versions(VersionColumn::Pubtime), ColumnKind::Timestamp),
            ],
            Migration::AddCompileFieldsToCrates => seq![
                required(
                    Column::Crates(CrateColumn::CompileHandled),
                    ColumnKind::Boolean,
                    ColumnDefault::False,
                ),
                required(
                    Column::Crates(CrateColumn::InitialCompileFailed),
                    ColumnKind::Boolean,
                    ColumnDefault::False,
                ),
                required(
                    Column::Crates(CrateColumn::CargoLockExists),
                    ColumnKind::Integer,
                    ColumnDefault::Zero,
                ),
                optional(Column::Crates(CrateColumn::DepUpdateErrors), ColumnKind::JsonBinary),
            ],
            Migration::AddHeavyDepsSkipFieldsToCrates => seq![
                required(
                    Column::Crates(CrateColumn::HeavyDepsSkipped),
                    ColumnKind::Boolean,
                    ColumnDefault::False,
                ),
                required(
                    Column::Crates(CrateColumn::HeavyDepsCount),
                    ColumnKind::Integer,
                    ColumnDefault::Zero,
                ),
            ],
        }
    }

    /// The columns that the migration brings, in order.
    pub fn columns(&self) -> (columns: Vec<ColumnSpec>)
        ensures
            columns@ == self.brings(),
    {
        let mut out: Vec<ColumnSpec> = Vec::new();
        let text = ColumnKind::Text;
        let flag = ColumnKind::Boolean;
        let json = ColumnKind::JsonBinary;
        match self {
            Migration::CreateCratesTable => {
                out.push(key_column(Column::Crates(CrateColumn::Id)));
                out.push(required_column(Column::Crates(CrateColumn::Name), text, ColumnDefault::Nothing));
                out.push(optional_column(Column::Crates(CrateColumn::Homepage), text));
                out.push(
                    required_column(Column::Crates(CrateColumn::Analyzed), flag, ColumnDefault::False),
                );
                out.push(
                    required_column(Column::Crates(CrateColumn::Download), flag, ColumnDefault::False),
                );
                out.push(
                    required_column(
                        Column::Crates(CrateColumn::CreatedAt),
                        ColumnKind::Timestamp,
                        ColumnDefault::Now,
                    ),
                );
                out.push(
                    required_column(
                        Column::Crates(CrateColumn::UpdatedAt),
                        ColumnKind::Timestamp,
                        ColumnDefault::Now,
                    ),
                );
                out.push(
                    required_column(Column::Crates(CrateColumn::VersionNew), text, ColumnDefault::EmptyText),
                );
            },
            Migration::AddDownloadRetryFields => {
                out.push(
                    required_column(Column::Crates(CrateColumn::DownloadFailed), flag, ColumnDefault::False),
                );
            },
            Migration::AddVersionHandledToCrates => {
                out.push(
                    required_column(Column::Crates(CrateColumn::VersionHandled), flag, ColumnDefault::False),
                );
            },
            Migration::CreateCrateVersionsIndexTable => {
                out.push(key_column(Column::Versions(VersionColumn::Id)));
                out.push(
                    required_column(
                        Column::Versions(VersionColumn::CrateId),
                        ColumnKind::Integer,
                        ColumnDefault::Nothing,
                    ),
                );
                out.push(
                    required_column(
                        Column::Versions(VersionColumn::Version),
                        text,
                        ColumnDefault::Nothing,
                    ),
                );
                out.push(
                    required_column(Column::Versions(VersionColumn::Deps), json, ColumnDefault::Nothing),
                );
                out.push(optional_column(Column::Versions(VersionColumn::Features2), json));
                out.push(
                    optional_column(Column::Versions(VersionColumn::Pubtime), ColumnKind::Timestamp),
                );
            },
            Migration::AddCompileFieldsToCrates => {
                out.push(
                    required_column(Column::Crates(CrateColumn::CompileHandled), flag, ColumnDefault::False),
                );
                out.push(
                    required_column(
                        Column::Crates(CrateColumn::InitialCompileFailed),
                        flag,
                        ColumnDefault::False,
                    ),
                );
                out.push(
                    required_column(
                        Column::Crates(CrateColumn::CargoLockExists),
                        ColumnKind::Integer,
                        ColumnDefault::Zero,
                    ),
                );
                out.push(optional_column(Column::Crates(CrateColumn::DepUpdateErrors), json));
            },
            Migration::AddHeavyDepsSkipFieldsToCrates => {
                out.push(
                    required_column(
                        Column::Crates(CrateColumn::HeavyDepsSkipped),
                        flag,
                        ColumnDefault::False,
                    ),
                );
                out.push(
                    required_column(
                        Column::Crates(CrateColumn::HeavyDepsCount),
                        ColumnKind::Integer,
                        ColumnDefault::Zero,
                    ),
                );
            },
        }
        assert(out@ =~= self.brings());
        out
    }
}

/// A change of the tables.
#[derive(Debug)]
pub enum SchemaChange {
    /// Make the table with these columns, unless it is there.
    CreateTable(Table, Vec<ColumnSpec>),
    DropTable(Table),
    AddColumns(Table, Vec<ColumnSpec>),
    DropColumns(Table, Vec<ColumnSpec>),
}

/// What a [`SchemaChange`] says.
pub enum ChangeView {
    CreateTable(Table, Seq<ColumnSpec>),
    DropTable(Table),
    AddColumns(Table, Seq<ColumnSpec>),
    DropColumns(Table, Seq<ColumnSpec>),
}

impl View for SchemaChange {
    type V = ChangeView;

    open spec fn view(&self) -> ChangeView {
        match self {
            SchemaChange::CreateTable(table, columns) => ChangeView::CreateTable(*table, columns@),
            SchemaChange::DropTable(table) => ChangeView::DropTable(*table),
            SchemaChange::AddColumns(table, columns) => ChangeView::AddColumns(*table, columns@),
            SchemaChange::DropColumns(table, columns) => ChangeView::DropColumns(*table, columns@),
        }
    }
}

impl Migration {
    /// What applies the migration.
    pub open spec fn does(self) -> ChangeView {
        if self.creates() {
            ChangeView::CreateTable(self.about(), self.brings())
        } else {
            ChangeView::AddColumns(self.about(), self.brings())
        }
    }

    /// What takes the migration back.
    pub open spec fn undoes(self) -> ChangeView {
        if self.creates() {
            ChangeView::DropTable(self.about())
        } else {
            ChangeView::DropColumns(self.about(), self.brings())
        }
    }

    /// What applies the migration.
    pub fn up(&self) -> (change: SchemaChange)
        ensures
            change@ == self.does(),
    {
        let columns = self.columns();
        match self {
            Migration::CreateCratesTable | Migration::CreateCrateVersionsIndexTable => {
                SchemaChange::CreateTable(self.table(), columns)
            },
            _ => SchemaChange::AddColumns(self.table(), columns),
        }
    }

    /// What takes the migration back.
    pub fn down(&self) -> (change: SchemaChange)
        ensures
            change@ == self.undoes(),
    {
        match self {
            Migration::CreateCratesTable | Migration::CreateCrateVersionsIndexTable => {
                SchemaChange::DropTable(self.table())
            },
            _ => SchemaChange::DropColumns(self.table(), self.columns()),
        }
    }
}

/// The tables that are there, with their columns.
#[verifier::ext_equal]
pub struct SchemaView {
    pub crates: Option<Seq<ColumnSpec>>,
    pub versions: Option<Seq<ColumnSpec>>,
}

/// The columns that are not among `dropped`, in order.
pub open spec fn remaining(columns: Seq<ColumnSpec>, dropped: Seq<ColumnSpec>) -> Seq<ColumnSpec> {
    columns.filter(|c: ColumnSpec| !dropped.contains(c))
}

impl SchemaView {
    pub open spec fn empty() -> SchemaView {
        SchemaView { crates: None, versions: None }
    }

    pub open spec fn columns(self, table: Table) -> Option<Seq<ColumnSpec>> {
        match table {
            Table::Crates => self.crates,
            Table::CrateVersionsIndex => self.versions,
        }
    }

    pub open spec fn with(self, table: Table, columns: Option<Seq<ColumnSpec>>) -> SchemaView {
        match table {
            Table::Crates => SchemaView { crates: columns, ..self },
            Table::CrateVersionsIndex => SchemaView { versions: columns, ..self },
        }
    }

    /// The tables after a change. A table that is not there has no columns to
    /// change.
    pub open spec fn after(self, change: ChangeView) -> SchemaView {
        match change {
            ChangeView::CreateTable(table, columns) => match self.columns(table) {
                Some(_) => self,
                None => self.with(table, Some(columns)),
            },
            ChangeView::DropTable(table) => self.with(table, None),
            ChangeView::AddColumns(table, columns) => match self.columns(table) {
                Some(before) => self.with(table, Some(before + columns)),
                None => self,
            },
            ChangeView::DropColumns(table, columns) => match self.columns(table) {
                Some(before) => self.with(table, Some(remaining(before, columns))),
                None => self,
            },
        }
    }

    /// Whether a migration is still to be applied: its table is not there yet,
    /// or is there without its columns.
    pub open spec fn awaits(self, migration: Migration) -> bool {
        if migration.creates() {
            self.columns(migration.about()) is None
        } else {
            &&& self.columns(migration.about()) is Some
            &&& forall|i: int|
                0 <= i < self.columns(migration.about())->0.len()
                    ==> !migration.brings().contains(
                    #[trigger] self.columns(migration.about())->0[i],
                )
        }
    }
}

proof fn lemma_all_remain(columns: Seq<ColumnSpec>, dropped: Seq<ColumnSpec>)
    requires
        forall|i: int| 0 <= i < columns.len() ==> !dropped.contains(#[trigger] columns[i]),
    ensures
        remaining(columns, dropped) == columns,
    decreases columns.len(),
{
    reveal(Seq::filter);
    if columns.len() > 0 {
        let before = columns.drop_last();
        assert forall|i: int| 0 <= i < before.len() implies !dropped.contains(
            #[trigger] before[i],
        ) by {
            assert(before[i] == columns[i]);
        }
        lemma_all_remain(before, dropped);
        assert(!dropped.contains(columns[columns.len() - 1]));
        assert(before.push(columns.last()) =~= columns);
    }
}

proof fn lemma_none_remain(columns: Seq<ColumnSpec>, dropped: Seq<ColumnSpec>)
    requires
        forall|i: int| 0 <= i < columns.len() ==> dropped.contains(#[trigger] columns[i]),
    ensures
        remaining(columns, dropped) == Seq::<ColumnSpec>::empty(),
    decreases columns.len(),
{
    reveal(Seq::filter);
    if columns.len() > 0 {
        let before = columns.drop_last();
        assert forall|i: int| 0 <= i < before.len() implies dropped.contains(
            #[trigger] before[i],
        ) by {
            assert(before[i] == columns[i]);
        }
        lemma_none_remain(before, dropped);
        assert(dropped.contains(columns[columns.len() - 1]));
    }
}

/// Taking a migration back leaves the tables as they were before it.
pub proof fn law_down_undoes_up(schema: SchemaView, migration: Migration)
    requires
        schema.awaits(migration),
    ensures
        schema.after(migration.does()).after(migration.undoes()) == schema,
{
    if !migration.creates() {
        let before = schema.columns(migration.about())->0;
        let brought = migration.brings();
        assert forall|i: int| 0 <= i < brought.len() implies brought.contains(
            #[trigger] brought[i],
        ) by {}
        lemma_all_remain(before, brought);
        lemma_none_remain(brought, brought);
        Seq::filter_distributes_over_add(
            before,
            brought,
            |c: ColumnSpec| !brought.contains(c),
        );
        assert(remaining(before + brought, brought) =~= before);
    }
    assert(schema.after(migration.does()).after(migration.undoes()) =~= schema);
}

/// The migrations, in the order in which they are applied.
pub struct Migrator;

impl Migrator {
    pub open spec fn all() -> Seq<Migration> {
        seq![
            Migration::CreateCratesTable,
            Migration::AddDownloadRetryFields,
            Migration::AddVersionHandledToCrates,
            Migration::CreateCrateVersionsIndexTable,
            Migration::AddCompileFieldsToCrates,
            Migration::AddHeavyDepsSkipFieldsToCrates,
        ]
    }

    /// The migrations, in the order in which they are applied.
    pub fn migrations() -> (list: Vec<Migration>)
        ensures
            list@ == Migrator::all(),
    {
        let mut list: Vec<Migration> = Vec::new();
        list.push(Migration::CreateCratesTable);
        list.push(Migration::AddDownloadRetryFields);
        list.push(Migration::AddVersionHandledToCrates);
        list.push(Migration::CreateCrateVersionsIndexTable);
        list.push(Migration::AddCompileFieldsToCrates);
        list.push(Migration::AddHeavyDepsSkipFieldsToCrates);
        assert(list@ =~= Migrator::all());
        list
    }
}

/// The tables after the first `n` migrations.
pub open spec fn migrated(n: int) -> SchemaView
    decreases n,
{
    if n <= 0 {
        SchemaView::empty()
    } else {
        migrated(n - 1).after(Migrator::all()[n - 1].does())
    }
}

/// The columns by their order, without how they are made.
pub open spec fn column_list(columns: Seq<ColumnSpec>) -> Seq<Column> {
    columns.map_values(|c: ColumnSpec| c.column)
}

proof fn lemma_awaits_by_column(schema: SchemaView, migration: Migration)
    requires
        !migration.creates(),
        schema.columns(migration.about()) is Some,
        forall|i: int, j: int|
            0 <= i < schema.columns(migration.about())->0.len() && 0 <= j
                < migration.brings().len() ==> (#[trigger] schema.columns(
                migration.about(),
            )->0[i]).column != (#[trigger] migration.brings()[j]).column,
    ensures
        schema.awaits(migration),
{
}

/// From an empty database the migrations can be applied one after another, each
/// one finding its table as it expects it, and they make exactly the columns
/// that the programs use.
pub proof fn law_migrations_make_the_tables()
    ensures
        forall|n: int| 0 <= n < Migrator::all().len() ==> (#[trigger] migrated(n)).awaits(
            Migrator::all()[n],
        ),
        migrated(6).crates is Some,
        column_list(migrated(6).crates->0) == seq![
            Column::Crates(CrateColumn::Id),
            Column::Crates(CrateColumn::Name),
            Column::Crates(CrateColumn::Homepage),
            Column::Crates(CrateColumn::Analyzed),
            Column::Crates(CrateColumn::Download),
            Column::Crates(CrateColumn::CreatedAt),
            Column::Crates(CrateColumn::UpdatedAt),
            Column::Crates(CrateColumn::VersionNew),
            Column::Crates(CrateColumn::DownloadFailed),
            Column::Crates(CrateColumn::VersionHandled),
            Column::Crates(CrateColumn::CompileHandled),
            Column::Crates(CrateColumn::InitialCompileFailed),
            Column::Crates(CrateColumn::CargoLockExists),
            Column::Crates(CrateColumn::DepUpdateErrors),
            Column::Crates(CrateColumn::HeavyDepsSkipped),
            Column::Crates(CrateColumn::HeavyDepsCount),
        ],
        migrated(6).versions is Some,
        column_list(migrated(6).versions->0) == seq![
            Column::Versions(VersionColumn::Id),
            Column::Versions(VersionColumn::CrateId),
            Column::Versions(VersionColumn::Version),
            Column::Versions(VersionColumn::Deps),
            Column::Versions(VersionColumn::Features2),
            Column::Versions(VersionColumn::Pubtime),
        ],
{
    reveal_with_fuel(migrated, 7);
    lemma_awaits_by_column(migrated(1), Migration::AddDownloadRetryFields);
    lemma_awaits_by_column(migrated(2), Migration::AddVersionHandledToCrates);
    lemma_awaits_by_column(migrated(4), Migration::AddCompileFieldsToCrates);
    lemma_awaits_by_column(migrated(5), Migration::AddHeavyDepsSkipFieldsToCrates);
    assert forall|n: int| 0 <= n < Migrator::all().len() implies (#[trigger] migrated(n)).awaits(
        Migrator::all()[n],
    ) by {
        assert(n == 0 || n == 1 || n == 2 || n == 3 || n == 4 || n == 5);
    }
}

/// The columns that tell the versions apart: no two rows have the same crate and
/// the same version.
pub open spec fn version_key_columns() -> Seq<VersionColumn> {
    seq![VersionColumn::CrateId, VersionColumn::Version]
}

/// The columns that tell the versions apart.
pub fn version_key() -> (columns: Vec<VersionColumn>)
    ensures
        columns@ == version_key_columns(),
        columns@ == seq![VersionColumn::CrateId, VersionColumn::Version],
{
    let mut columns: Vec<VersionColumn> = Vec::new();
    columns.push(VersionColumn::CrateId);
    columns.push(VersionColumn::Version);
    assert(columns@ =~= version_key_columns());
    columns
}

/// What happens to a row when the row that it refers to is deleted.
#[derive(Debug, Clone, Copy, PartialEq, Eq, Structural)]
pub enum OnDelete {
    /// It is deleted too.
    Cascade,
}

/// A column that refers to a column of another table.
#[derive(Debug, Clone, Copy)]
pub struct Reference {
    pub name: &'static str,
    pub from: VersionColumn,
    pub to_table: Table,
    pub to: CrateColumn,
    pub on_delete: OnDelete,
}

/// The keys that a table is made with, besides its numbering.
#[derive(Debug)]
pub struct TableKeys {
    pub unique_name: &'static str,
    /// No two rows agree in all of these columns.
    pub unique: Vec<VersionColumn>,
    pub reference: Reference,
}

impl Migration {
    /// The keys that the migration makes its table with. The versions are told
    /// apart by crate and version, and go with their crate.
    pub fn keys(&self) -> (keys: Option<TableKeys>)
        ensures
            keys is Some <==> self.creates() && self.about() == Table::CrateVersionsIndex,
            keys matches Some(k) ==> {
                &&& k.unique@ == version_key_columns()
                &&& k.unique@ == seq![VersionColumn::CrateId, VersionColumn::Version]
                &&& k.unique_name@ == "idx_crate_versions_index_crate_version_unique"@
                &&& k.reference.name@ == "fk_crate_versions_index_crate_id"@
                &&& k.reference.from == VersionColumn::CrateId
                &&& k.reference.to_table == Table::Crates
                &&& k.reference.to == CrateColumn::Id
                &&& k.reference.on_delete == OnDelete::Cascade
            },
    {
        match self {
            Migration::CreateCrateVersionsIndexTable => Some(
                TableKeys {
                    unique_name: "idx_crate_versions_index_crate_version_unique",
                    unique: version_key(),
                    reference: Reference {
                        name: "fk_crate_versions_index_crate_id",
                        from: VersionColumn::CrateId,
                        to_table: Table::Crates,
                        to: CrateColumn::Id,
                        on_delete: OnDelete::Cascade,
                    },
                },
            ),
            _ => None,
        }
    }
}

/// How each column is made, whichever migration brings it. The flags are false
/// where nothing was stored and the counts are zero; only what may be unknown of
/// a crate or a version may be empty; and each table has one column that numbers
/// its rows.
pub proof fn law_columns_by_what_they_hold(migration: Migration, i: int)
    requires
        0 <= i < migration.brings().len(),
    ensures
        ({
            let made = migration.brings()[i];
            let c = made.column;
            let is_key = c == Column::Crates(CrateColumn::Id) || c == Column::Versions(
                VersionColumn::Id,
            );
            let counts = c == Column::Crates(CrateColumn::CargoLockExists) || c == Column::Crates(
                CrateColumn::HeavyDepsCount,
            );
            let written = c == Column::Crates(CrateColumn::CreatedAt) || c == Column::Crates(
                CrateColumn::UpdatedAt,
            );
            &&& made.kind == ColumnKind::Boolean <==> {
                ||| c == Column::Crates(CrateColumn::Analyzed)
                ||| c == Column::Crates(CrateColumn::Download)
                ||| c == Column::Crates(CrateColumn::DownloadFailed)
                ||| c == Column::Crates(CrateColumn::VersionHandled)
                ||| c == Column::Crates(CrateColumn::CompileHandled)
                ||| c == Column::Crates(CrateColumn::InitialCompileFailed)
                ||| c == Column::Crates(CrateColumn::HeavyDepsSkipped)
            }
            &&& made.kind == ColumnKind::Integer <==> is_key || counts || c == Column::Versions(
                VersionColumn::CrateId,
            )
            &&& made.kind == ColumnKind::Timestamp <==> written || c == Column::Versions(
                VersionColumn::Pubtime,
            )
            &&& made.kind == ColumnKind::JsonBinary <==> {
                ||| c == Column::Crates(CrateColumn::DepUpdateErrors)
                ||| c == Column::Versions(VersionColumn::Deps)
                ||| c == Column::Versions(VersionColumn::Features2)
            }
            &&& !made.not_null <==> {
                ||| c == Column::Crates(CrateColumn::Homepage)
                ||| c == Column::Crates(CrateColumn::DepUpdateErrors)
                ||| c == Column::Versions(VersionColumn::Features2)
                ||| c == Column::Versions(VersionColumn::Pubtime)
            }
            &&& made.default == ColumnDefault::False <==> made.kind == ColumnKind::Boolean
            &&& made.default == ColumnDefault::Zero <==> counts
            &&& made.default == ColumnDefault::Now <==> written
            &&& made.default == ColumnDefault::EmptyText <==> c == Column::Crates(
                CrateColumn::VersionNew,
            )
            &&& made.primary_key <==> is_key
            &&& made.auto_increment <==> is_key
        }),
{
}

/// What a migration does and what takes it back are about one table and the same
/// columns: the first one of a table makes it, and each other one adds to it.
pub proof fn law_migration_makes_or_extends(migration: Migration)
    ensures
        migration == Migration::CreateCratesTable ==> migration.does() == ChangeView::CreateTable(
            Table::Crates,
            migration.brings(),
        ) && migration.undoes() == ChangeView::DropTable(Table::Crates),
        migration == Migration::CreateCrateVersionsIndexTable ==> migration.does()
            == ChangeView::CreateTable(Table::CrateVersionsIndex, migration.brings())
            && migration.undoes() == ChangeView::DropTable(Table::CrateVersionsIndex),
        migration != Migration::CreateCratesTable && migration
            != Migration::CreateCrateVersionsIndexTable ==> migration.does()
            == ChangeView::AddColumns(Table::Crates, migration.brings()) && migration.undoes()
            == ChangeView::DropColumns(Table::Crates, migration.brings()),
        forall|i: int|
            0 <= i < migration.brings().len() ==> ((#[trigger] migration.brings()[i]).column
                is Versions <==> migration.about() == Table::CrateVersionsIndex),
{
}

/// A change says what it holds.
pub proof fn law_change_says_what_it_holds(change: SchemaChange)
    ensures
        change matches SchemaChange::CreateTable(table, columns) ==> change@
            == ChangeView::CreateTable(table, columns@),
        change matches SchemaChange::DropTable(table) ==> change@ == ChangeView::DropTable(table),
        change matches SchemaChange::AddColumns(table, columns) ==> change@
            == ChangeView::AddColumns(table, columns@),
        change matches SchemaChange::DropColumns(table, columns) ==> change@
            == ChangeView::DropColumns(table, columns@),
{
}

/// The names under which the migrations are recorded, in the order in which they
/// are applied.
pub proof fn law_migrations_by_name()
    ensures
        Migrator::all().map_values(|m: Migration| m.named()) == seq![
            "m20260425_000001_create_crates_table"@,
            "m20260425_000002_add_download_retry_fields"@,
            "m20260426_000003_add_version_handled_to_crates"@,
            "m20260426_000004_create_crate_versions_index_table"@,
            "m20260427_000005_add_compile_fields_to_crates"@,
            "m20260512_000006_add_heavy_deps_skip_fields_to_crates"@,
        ],
{
    assert(Migrator::all().map_values(|m: Migration| m.named()) =~= seq![
        "m20260425_000001_create_crates_table"@,
        "m20260425_000002_add_download_retry_fields"@,
        "m20260426_000003_add_version_handled_to_crates"@,
        "m20260426_000004_create_crate_versions_index_table"@,
        "m20260427_000005_add_compile_fields_to_crates"@,
        "m20260512_000006_add_heavy_deps_skip_fields_to_crates"@,
    ]);
}

/// The tables that the migrations make, by the names that the database knows
/// them by.
pub proof fn law_tables_by_name()
    ensures
        Table::Crates.named() == "crates"@,
        Table::CrateVersionsIndex.named() == "crate_versions_index"@,
        migrated(6).crates is Some,
        migrated(6).versions is Some,
        migrated(6).crates->0.map_values(|c: ColumnSpec| c.column.named()) == seq![
            "id"@,
            "name"@,
            "homepage"@,
            "analyzed"@,
            "download"@,
            "created_at"@,
            "updated_at"@,
            "version_new"@,
            "download_failed"@,
            "version_handled"@,
            "compile_handled"@,
            "initial_compile_failed"@,
            "cargo_lock_exists"@,
            "dep_update_errors"@,
            "heavy_deps_skipped"@,
            "heavy_deps_count"@,
        ],
        migrated(6).versions->0.map_values(|c: ColumnSpec| c.column.named()) == seq![
            "id"@,
            "crate_id"@,
            "version"@,
            "deps"@,
            "features2"@,
            "pubtime"@,
        ],
{
    reveal_with_fuel(migrated, 7);
}

} // verus!
