//! The import of the crate list: a header line, and a line of tab-separated
//! fields per crate.

use vstd::hash_map::StringHashMap;
use vstd::prelude::*;
use vstd::string::*;
use crate::text;
use crate::times::{self, Timestamp};

verus! {

/// How many rows are stored at once.
pub const IMPORT_BATCH_SIZE: usize = 2000;

/// The files that the import reads.
#[derive(Debug, Clone, Copy, PartialEq, Eq, Structural)]
pub enum ImportFile {
    /// The versions of the crates.
    Data,
    /// The list of the crates.
    Crates,
}

impl ImportFile {
    pub open spec fn path(self) -> Seq<Seq<char>> {
        seq![
            "datahandle"@,
            "data_import"@,
            match self {
                ImportFile::Data => "data.txt"@,
                ImportFile::Crates => "crates.txt"@,
            },
        ]
    }

    /// Where the file is, from the root of the workspace.
    pub fn rel_path(&self) -> (parts: Vec<String>)
        ensures
            text::texts(parts@) == self.path(),
    {
        let mut parts: Vec<String> = Vec::new();
        parts.push("datahandle".to_owned());
        parts.push("data_import".to_owned());
        parts.push(
            match self {
                ImportFile::Data => "data.txt".to_owned(),
                ImportFile::Crates => "crates.txt".to_owned(),
            },
        );
        assert(text::texts(parts@) =~= self.path());
        parts
    }
}

/// The file for want of which the import cannot begin, if one is missing; the
/// versions are missed first.
pub fn missing_import_file(data_exists: bool, crates_exists: bool) -> (missing: Option<ImportFile>)
    ensures
        missing == if !data_exists {
            Some(ImportFile::Data)
        } else if !crates_exists {
            Some(ImportFile::Crates)
        } else {
            None
        },
{
    if !data_exists {
        Some(ImportFile::Data)
    } else if !crates_exists {
        Some(ImportFile::Crates)
    } else {
        None
    }
}

/// The message of the error for a file that is not there.
pub fn missing_file_error(path: &str) -> (message: String)
    ensures
        message@ == "Missing file: "@ + path@,
{
    "Missing file: ".to_owned().concat(path)
}

/// A crate, as the import stores it.
#[derive(Debug, Clone)]
pub struct CrateImportRow {
    pub id: i32,
    pub name: String,
    pub homepage: Option<String>,
    pub analyzed: bool,
    pub download: bool,
    pub created_at: Timestamp,
    pub updated_at: Timestamp,
    pub version_new: String,
    pub download_failed: bool,
    pub version_handled: bool,
}

/// What a [`CrateImportRow`] says.
pub struct ImportView {
    pub id: int,
    pub name: Seq<char>,
    pub homepage: Option<Seq<char>>,
    pub analyzed: bool,
    pub download: bool,
    pub created_at: Timestamp,
    pub updated_at: Timestamp,
    pub version_new: Seq<char>,
    pub download_failed: bool,
    pub version_handled: bool,
}

impl View for CrateImportRow {
    type V = ImportView;

    open spec fn view(&self) -> ImportView {
        ImportView {
            id: self.id as int,
            name: self.name@,
            homepage: match self.homepage {
                Some(homepage) => Some(homepage@),
                None => None,
            },
            analyzed: self.analyzed,
            download: self.download,
            created_at: self.created_at,
            updated_at: self.updated_at,
            version_new: self.version_new@,
            download_failed: self.download_failed,
            version_handled: self.version_handled,
        }
    }
}

/// The views of a list of rows, in order.
pub open spec fn import_views(rows: Seq<CrateImportRow>) -> Seq<ImportView> {
    rows.map_values(|row: CrateImportRow| row@)
}

/// Where the home of a crate is.
pub open spec fn homepage_of(name: Seq<char>) -> Seq<char> {
    "https://static.crates.io/crates/"@ + name
}

/// The first of two points in time that is known.
pub open spec fn or_else(at: Option<Timestamp>, otherwise: Timestamp) -> Timestamp {
    match at {
        Some(at) => at,
        None => otherwise,
    }
}

/// The row for the fields of a line: id, name, time of the last update, time of
/// creation. There is none for a line whose id is no number, nor for a crate
/// without a known version. A crate that does not say when it was made was made
/// now, and one that does not say when it was updated was updated when it was
/// made.
pub open spec fn fields_row(
    parts: Seq<Seq<char>>,
    now: Timestamp,
    versions: Map<Seq<char>, Seq<char>>,
) -> Option<ImportView> {
    let id = text::integer(text::unquoted(parts[0]));
    let name = text::unquoted(parts[1]);
    let created_at = or_else(times::crates_datetime(text::unquoted(parts[3])), now);
    if parts.len() < 4 || id is None || !versions.contains_key(name) || versions[name].len() == 0 {
        None
    } else {
        Some(
            ImportView {
                id: id->0,
                name,
                homepage: Some(homepage_of(name)),
                analyzed: false,
                download: false,
                created_at,
                updated_at: or_else(times::crates_datetime(text::unquoted(parts[2])), created_at),
                version_new: versions[name],
                download_failed: false,
                version_handled: false,
            },
        )
    }
}

/// The row for a line; none for an empty one.
pub open spec fn line_row(
    line: Seq<char>,
    now: Timestamp,
    versions: Map<Seq<char>, Seq<char>>,
) -> Option<ImportView> {
    if text::trimmed(line).len() == 0 {
        None
    } else {
        fields_row(text::split(text::trimmed(line), '\t'), now, versions)
    }
}

/// Reads the row for a line.
pub fn import_row(line: &str, now: Timestamp, versions: &StringHashMap<String>) -> (r: Option<
    CrateImportRow,
>)
    ensures
        match r {
            Some(row) => line_row(line@, now, text::text_map(versions@)) == Some(row@),
            None => line_row(line@, now, text::text_map(versions@)) is None,
        },
{
    let line = text::trim(line);
    if line.is_empty() {
        return None;
    }
    let parts = text::split_text(line, '\t');
    assert(parts@.len() == text::texts(parts@).len());
    if parts.len() < 4 {
        return None;
    }
    assert(text::texts(parts@)[0] == parts@[0]@);
    assert(text::texts(parts@)[1] == parts@[1]@);
    assert(text::texts(parts@)[2] == parts@[2]@);
    assert(text::texts(parts@)[3] == parts@[3]@);
    let raw_id = text::trim_quotes(parts[0].as_str());
    let name = text::trim_quotes(parts[1].as_str());
    let updated_raw = text::trim_quotes(parts[2].as_str());
    let created_raw = text::trim_quotes(parts[3].as_str());
    let id: i32 = match text::parse_i32(raw_id) {
        Some(id) => id,
        None => return None,
    };
    let created_at = match times::parse_crates_datetime(created_raw) {
        Some(at) => at,
        None => now,
    };
    let updated_at = match times::parse_crates_datetime(updated_raw) {
        Some(at) => at,
        None => created_at,
    };
    let version_new = match versions.get(name) {
        Some(version) => if version.as_str().is_empty() {
            return None;
        } else {
            version.clone()
        },
        None => return None,
    };
    let homepage = "https://static.crates.io/crates/".to_owned().concat(name);
    Some(
        CrateImportRow {
            id,
            name: name.to_owned(),
            homepage: Some(homepage),
            analyzed: false,
            download: false,
            created_at,
            updated_at,
            version_new,
            download_failed: false,
            version_handled: false,
        },
    )
}

/// Where an import stands: the known versions, whether the header line is past,
/// and the rows that are waiting to be stored.
pub struct ImporterView {
    pub versions: Map<Seq<char>, Seq<char>>,
    pub header_read: bool,
    pub waiting: Seq<ImportView>,
}

impl ImporterView {
    pub open spec fn first(versions: Map<Seq<char>, Seq<char>>) -> ImporterView {
        ImporterView { versions, header_read: false, waiting: Seq::empty() }
    }

    /// The rows that are waiting once a line is read, the full batch included.
    pub open spec fn gathered(self, line: Seq<char>, now: Timestamp) -> Seq<ImportView> {
        if self.header_read {
            match line_row(line, now, self.versions) {
                Some(row) => self.waiting.push(row),
                None => self.waiting,
            }
        } else {
            self.waiting
        }
    }

    /// The batch that a line fills.
    pub open spec fn filled(self, line: Seq<char>, now: Timestamp) -> Option<Seq<ImportView>> {
        let rows = self.gathered(line, now);
        if rows.len() >= IMPORT_BATCH_SIZE {
            Some(rows)
        } else {
            None
        }
    }

    /// Where the import stands after a line.
    pub open spec fn after(self, line: Seq<char>, now: Timestamp) -> ImporterView {
        ImporterView {
            header_read: true,
            waiting: if self.filled(line, now) is Some {
                Seq::empty()
            } else {
                self.gathered(line, now)
            },
            ..self
        }
    }
}

/// An import.
pub struct Importer {
    versions: StringHashMap<String>,
    header_read: bool,
    waiting: Vec<CrateImportRow>,
}

impl View for Importer {
    type V = ImporterView;

    closed spec fn view(&self) -> ImporterView {
        ImporterView {
            versions: text::text_map(self.versions@),
            header_read: self.header_read,
            waiting: import_views(self.waiting@),
        }
    }
}

impl Importer {
    pub fn new(versions: StringHashMap<String>) -> (importer: Importer)
        ensures
            importer@ == ImporterView::first(text::text_map(versions@)),
    {
        let importer = Importer { versions, header_read: false, waiting: Vec::new() };
        assert(importer@.waiting =~= Seq::<ImportView>::empty());
        importer
    }

    /// Reads the next line of the crate list. Gives the rows to store when the
    /// line fills a batch.
    pub fn read_line(&mut self, line: &str, now: Timestamp) -> (full: Option<Vec<CrateImportRow>>)
        ensures
            final(self)@ == old(self)@.after(line@, now),
            match full {
                Some(rows) => old(self)@.filled(line@, now) == Some(import_views(rows@)),
                None => old(self)@.filled(line@, now) is None,
            },
    {
        let ghost before = import_views(self.waiting@);
        if self.header_read {
            if let Some(row) = import_row(line, now, &self.versions) {
                self.waiting.push(row);
                assert(import_views(self.waiting@) =~= before.push(row@));
            }
        } else {
            self.header_read = true;
        }
        assert(import_views(self.waiting@) == old(self)@.gathered(line@, now));
        assert(self.waiting@.len() == import_views(self.waiting@).len());
        if self.waiting.len() >= IMPORT_BATCH_SIZE {
            let mut rows: Vec<CrateImportRow> = Vec::new();
            std::mem::swap(&mut rows, &mut self.waiting);
            assert(import_views(self.waiting@) =~= Seq::<ImportView>::empty());
            Some(rows)
        } else {
            None
        }
    }

    /// The rows that are left to store after the last line.
    pub fn finish(self) -> (rest: Option<Vec<CrateImportRow>>)
        ensures
            match rest {
                Some(rows) => rows@.len() > 0 && import_views(rows@) == self@.waiting,
                None => self@.waiting.len() == 0,
            },
    {
        assert(self.waiting@.len() == import_views(self.waiting@).len());
        if self.waiting.is_empty() {
            None
        } else {
            Some(self.waiting)
        }
    }
}

/// A line, and when it is read.
pub struct LineView {
    pub line: Seq<char>,
    pub now: Timestamp,
}

/// Where an import stands after the given lines.
pub open spec fn fed(versions: Map<Seq<char>, Seq<char>>, lines: Seq<LineView>) -> ImporterView
    decreases lines.len(),
{
    if lines.len() == 0 {
        ImporterView::first(versions)
    } else {
        fed(versions, lines.drop_last()).after(lines.last().line, lines.last().now)
    }
}

/// The batches that the given lines fill, in order.
pub open spec fn batches(versions: Map<Seq<char>, Seq<char>>, lines: Seq<LineView>) -> Seq<
    Seq<ImportView>,
>
    decreases lines.len(),
{
    if lines.len() == 0 {
        Seq::empty()
    } else {
        let before = batches(versions, lines.drop_last());
        match fed(versions, lines.drop_last()).filled(lines.last().line, lines.last().now) {
            Some(batch) => before.push(batch),
            None => before,
        }
    }
}

/// The rows of the lines after the first, in order.
pub open spec fn listed(versions: Map<Seq<char>, Seq<char>>, lines: Seq<LineView>) -> Seq<
    ImportView,
>
    decreases lines.len(),
{
    if lines.len() <= 1 {
        Seq::empty()
    } else {
        let before = listed(versions, lines.drop_last());
        match line_row(lines.last().line, lines.last().now, versions) {
            Some(row) => before.push(row),
            None => before,
        }
    }
}

/// Every row of the crate list is stored exactly once and in order: the batches
/// one after another, and then what is left, are the rows of the lines after the
/// header. Every batch but the last is full.
pub proof fn law_every_row_is_stored(versions: Map<Seq<char>, Seq<char>>, lines: Seq<LineView>)
    ensures
        batches(versions, lines).flatten() + fed(versions, lines).waiting == listed(versions, lines),
        forall|i: int|
            0 <= i < batches(versions, lines).len() ==> (#[trigger] batches(
                versions,
                lines,
            )[i]).len() == 2000,
        fed(versions, lines).waiting.len() < 2000,
        fed(versions, lines).versions == versions,
        fed(versions, lines).header_read == (lines.len() > 0),
    decreases lines.len(),
{
    if lines.len() == 0 {
        assert(batches(versions, lines).flatten() =~= Seq::<ImportView>::empty());
    } else {
        let earlier = lines.drop_last();
        law_every_row_is_stored(versions, earlier);
        let before = fed(versions, earlier);
        let line = lines.last().line;
        let now = lines.last().now;
        let sent = batches(versions, earlier);
        assert(sent.flatten() + before.gathered(line, now) =~= listed(versions, lines)) by {
            if lines.len() == 1 {
                assert(earlier.len() == 0);
            }
        }
        match before.filled(line, now) {
            Some(batch) => {
                assert(batches(versions, lines) =~= sent.push(batch));
                lemma_flatten_push(sent, batch);
                assert(sent.push(batch).flatten() + Seq::<ImportView>::empty() =~= sent.flatten()
                    + batch);
                assert forall|i: int| 0 <= i < sent.push(batch).len() implies (
                #[trigger] batches(versions, lines)[i]).len() == IMPORT_BATCH_SIZE by {
                    if i < sent.len() {
                        assert(batches(versions, lines)[i] == sent[i]);
                    }
                }
            },
            None => {},
        }
    }
}

proof fn lemma_flatten_push(sent: Seq<Seq<ImportView>>, batch: Seq<ImportView>)
    ensures
        sent.push(batch).flatten() == sent.flatten() + batch,
{
    sent.push(batch).lemma_flatten_and_flatten_alt_are_equivalent();
    sent.lemma_flatten_and_flatten_alt_are_equivalent();
    assert(sent.push(batch).drop_last() =~= sent);
}

/// What the import stores of a crate has a version, is not yet downloaded, and
/// counts as neither analyzed, failed nor handled.
pub proof fn law_imported_crate_is_fresh(
    line: Seq<char>,
    now: Timestamp,
    versions: Map<Seq<char>, Seq<char>>,
)
    requires
        line_row(line, now, versions) is Some,
    ensures
        ({
            let row = line_row(line, now, versions)->0;
            &&& row.version_new.len() > 0
            &&& versions.contains_key(row.name) && row.version_new == versions[row.name]
            &&& !row.analyzed && !row.download && !row.download_failed && !row.version_handled
        }),
{
}

/// A row says what its fields hold.
pub proof fn law_import_row_says_its_fields(row: CrateImportRow)
    ensures
        row@.id == row.id,
        row@.name == row.name@,
        row.homepage matches Some(homepage) ==> row@.homepage == Some(homepage@),
        row.homepage is None ==> row@.homepage is None,
        row@.analyzed == row.analyzed,
        row@.download == row.download,
        row@.created_at == row.created_at,
        row@.updated_at == row.updated_at,
        row@.version_new == row.version_new@,
        row@.download_failed == row.download_failed,
        row@.version_handled == row.version_handled,
{
}

/// What a line of four fields or more gives, told by its fields: id, name, time
/// of the last update, time of creation, each without quotes. There is a row
/// exactly where the id is a number and the crate has a version that is not
/// empty.
pub proof fn law_row_by_its_fields(
    line: Seq<char>,
    now: Timestamp,
    versions: Map<Seq<char>, Seq<char>>,
    parts: Seq<Seq<char>>,
)
    requires
        parts == text::split(text::trimmed(line), '\t'),
        text::trimmed(line).len() > 0,
    ensures
        parts.len() < 4 ==> line_row(line, now, versions) is None,
        parts.len() >= 4 ==> ({
            let id = text::integer(text::unquoted(parts[0]));
            let name = text::unquoted(parts[1]);
            let updated = times::crates_datetime(text::unquoted(parts[2]));
            let created = times::crates_datetime(text::unquoted(parts[3]));
            let row = line_row(line, now, versions);
            &&& row is Some <==> id is Some && versions.contains_key(name) && versions[name].len()
                > 0
            &&& row is Some ==> {
                &&& Some(row->0.id) == id
                &&& row->0.name == name
                &&& row->0.version_new == versions[name]
                &&& row->0.homepage == Some("https://static.crates.io/crates/"@ + name)
                &&& created is Some ==> row->0.created_at == created->0
                &&& created is None ==> row->0.created_at == now
                &&& updated is Some ==> row->0.updated_at == updated->0
                &&& updated is None ==> row->0.updated_at == row->0.created_at
            }
        }),
{
}

/// A line that is empty but for white space gives no row, and white space around
/// a line does not count.
pub proof fn law_white_space_around_a_line(
    a: Seq<char>,
    b: Seq<char>,
    now: Timestamp,
    versions: Map<Seq<char>, Seq<char>>,
)
    ensures
        text::trimmed(a).len() == 0 ==> line_row(a, now, versions) is None,
        text::trimmed(a) == text::trimmed(b) ==> line_row(a, now, versions) == line_row(
            b,
            now,
            versions,
        ),
{
}

/// The first line is not read. Every line after it adds the row that it gives, if
/// it gives one, behind those of the lines before.
pub proof fn law_lines_add_their_rows(
    versions: Map<Seq<char>, Seq<char>>,
    lines: Seq<LineView>,
    line: LineView,
)
    ensures
        listed(versions, Seq::empty()).len() == 0,
        listed(versions, seq![line]).len() == 0,
        lines.len() > 0 ==> match line_row(line.line, line.now, versions) {
            Some(row) => listed(versions, lines.push(line)) == listed(versions, lines).push(row),
            None => listed(versions, lines.push(line)) == listed(versions, lines),
        },
{
    assert(lines.push(line).drop_last() =~= lines);
}

/// Both files of the import stand in one directory, each under its own name.
pub proof fn law_import_files(file: ImportFile)
    ensures
        file.path().len() == 3,
        file.path()[0] == "datahandle"@,
        file.path()[1] == "data_import"@,
        file == ImportFile::Data ==> file.path()[2] == "data.txt"@,
        file == ImportFile::Crates ==> file.path()[2] == "crates.txt"@,
{
}

} // verus!
