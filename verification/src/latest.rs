//! The newest version of every crate, from a CSV file with a header row.

use vstd::hash_map::StringHashMap;
use vstd::prelude::*;
use vstd::string::*;
use crate::text;

verus! {

/// The error of the `csv` crate.
#[verifier::external_type_specification]
#[verifier::external_body]
pub struct ExCsvError(csv::Error);

/// The header row that `csv::Reader::headers` gives for a file; none where it
/// gives an error.
pub uninterp spec fn csv_headers(data: Seq<u8>) -> Option<Seq<Seq<char>>>;

/// The rows after the header row that `csv::Reader::records` gives for a file;
/// none where one of them is an error.
pub uninterp spec fn csv_records(data: Seq<u8>) -> Option<Seq<Seq<Seq<char>>>>;

/// The fields of a list of rows.
pub open spec fn fields(rows: Seq<Vec<String>>) -> Seq<Seq<Seq<char>>> {
    rows.map_values(|row: Vec<String>| text::texts(row@))
}

/// `csv::Reader::headers` on a reader that `csv::Reader::from_reader` made: the
/// fields of the first row. What they are depends on the bytes alone.
#[verifier::external_body]
fn read_headers(data: &[u8]) -> (r: Result<Vec<String>, csv::Error>)
    ensures
        match r {
            Ok(headers) => csv_headers(data@) == Some(text::texts(headers@)),
            Err(_) => csv_headers(data@) is None,
        },
{
    let mut reader = csv::Reader::from_reader(data);
    let headers = reader.headers()?;
    Ok(headers.iter().map(str::to_owned).collect())
}

/// `csv::Reader::records` on a reader that `csv::Reader::from_reader` made: the
/// fields of the rows after the first, or the first error among them. What they
/// are depends on the bytes alone.
#[verifier::external_body]
fn read_records(data: &[u8]) -> (r: Result<Vec<Vec<String>>, csv::Error>)
    ensures
        match r {
            Ok(rows) => csv_records(data@) == Some(fields(rows@)),
            Err(_) => csv_records(data@) is None,
        },
{
    let mut reader = csv::Reader::from_reader(data);
    reader
        .records()
        .map(|row| row.map(|row| row.iter().map(str::to_owned).collect()))
        .collect()
}

/// Why the file cannot be used.
#[derive(Debug)]
pub enum LatestError {
    /// The file has no column with this name.
    MissingColumn(&'static str),
    /// The file is no CSV.
    Csv(csv::Error),
}

impl LatestError {
    /// The message where a column is missing; a CSV error has one of its own.
    pub open spec fn says(self) -> Option<Seq<char>> {
        match self {
            LatestError::MissingColumn(column) => Some(
                "missing column "@ + column@ + " in data.txt"@,
            ),
            LatestError::Csv(_) => None,
        }
    }

    pub fn message(&self) -> (message: Option<String>)
        ensures
            match message {
                Some(m) => self.says() == Some(m@),
                None => self.says() is None,
            },
    {
        match self {
            LatestError::MissingColumn(column) => Some(
                "missing column ".to_owned().concat(column).concat(" in data.txt"),
            ),
            LatestError::Csv(_) => None,
        }
    }
}

/// The first column with the given name.
pub open spec fn column(headers: Seq<Seq<char>>, name: Seq<char>) -> Option<int>
    decreases headers.len(),
{
    if headers.len() == 0 {
        None
    } else {
        match column(headers.drop_last(), name) {
            Some(i) => Some(i),
            None => if headers.last() == name {
                Some(headers.len() - 1)
            } else {
                None
            },
        }
    }
}

proof fn lemma_column(headers: Seq<Seq<char>>, name: Seq<char>, n: int)
    requires
        0 <= n <= headers.len(),
        column(headers.take(n), name) is Some,
    ensures
        column(headers, name) == column(headers.take(n), name),
    decreases headers.len() - n,
{
    if n < headers.len() {
        assert(headers.take(n + 1).drop_last() =~= headers.take(n));
        lemma_column(headers, name, n + 1);
    } else {
        assert(headers.take(n) =~= headers);
    }
}

fn find_column(headers: &Vec<String>, name: &str) -> (r: Option<usize>)
    ensures
        match r {
            Some(i) => column(text::texts(headers@), name@) == Some(i as int),
            None => column(text::texts(headers@), name@) is None,
        },
{
    let ghost all = text::texts(headers@);
    let mut i: usize = 0;
    assert(all.take(0) =~= Seq::<Seq<char>>::empty());
    while i < headers.len()
        invariant
            i <= headers@.len(),
            all == text::texts(headers@),
            column(all.take(i as int), name@) is None,
        decreases headers@.len() - i,
    {
        assert(all.take(i + 1).drop_last() =~= all.take(i as int));
        assert(all.take(i + 1).last() == headers@[i as int]@);
        if text::same_text(headers[i].as_str(), name) {
            proof {
                lemma_column(all, name@, i + 1);
            }
            return Some(i);
        }
        i += 1;
    }
    assert(all.take(i as int) =~= all);
    None
}

/// The columns of the names and of the versions.
pub open spec fn columns(headers: Seq<Seq<char>>) -> Option<(int, int)> {
    match (column(headers, "crate_name"@), column(headers, "crate_version"@)) {
        (Some(name), Some(version)) => Some((name, version)),
        _ => None,
    }
}

/// Finds the columns. Where both are missing the name is missed first.
pub fn find_columns(headers: &Vec<String>) -> (r: Result<(usize, usize), LatestError>)
    ensures
        match r {
            Ok((name, version)) => columns(text::texts(headers@)) == Some(
                (name as int, version as int),
            ),
            Err(LatestError::MissingColumn(missing)) => columns(text::texts(headers@)) is None
                && missing@ == if column(text::texts(headers@), "crate_name"@) is None {
                "crate_name"@
            } else {
                "crate_version"@
            },
            Err(LatestError::Csv(_)) => false,
        },
{
    let name = match find_column(headers, "crate_name") {
        Some(name) => name,
        None => return Err(LatestError::MissingColumn("crate_name")),
    };
    let version = match find_column(headers, "crate_version") {
        Some(version) => version,
        None => return Err(LatestError::MissingColumn("crate_version")),
    };
    Ok((name, version))
}

/// A field of a row, without white space at its ends; empty where the row is too
/// short.
pub open spec fn field(row: Seq<Seq<char>>, i: int) -> Seq<char> {
    if i < row.len() {
        text::trimmed(row[i])
    } else {
        Seq::empty()
    }
}

/// The version of every crate that the rows name. Rows without a name or a
/// version are passed over, and the first row for a crate counts.
pub open spec fn latest(rows: Seq<Seq<Seq<char>>>, name: int, version: int) -> Map<
    Seq<char>,
    Seq<char>,
>
    decreases rows.len(),
{
    if rows.len() == 0 {
        Map::empty()
    } else {
        let before = latest(rows.drop_last(), name, version);
        let n = field(rows.last(), name);
        let v = field(rows.last(), version);
        if n.len() == 0 || v.len() == 0 || before.contains_key(n) {
            before
        } else {
            before.insert(n, v)
        }
    }
}

/// The version of every crate in a table with the given header row.
pub open spec fn table(headers: Seq<Seq<char>>, rows: Seq<Seq<Seq<char>>>) -> Map<
    Seq<char>,
    Seq<char>,
> {
    match columns(headers) {
        Some((name, version)) => latest(rows, name, version),
        None => Map::empty(),
    }
}

fn field_of(row: &Vec<String>, i: usize) -> (r: &str)
    ensures
        r@ == field(text::texts(row@), i as int),
{
    if i < row.len() {
        text::trim(row[i].as_str())
    } else {
        proof {
            reveal_strlit("");
        }
        assert(""@ =~= Seq::<char>::empty());
        ""
    }
}

/// Collects the version of every crate that the rows name.
pub fn collect_latest(rows: &Vec<Vec<String>>, name: usize, version: usize) -> (r: StringHashMap<
    String,
>)
    ensures
        text::text_map(r@) == latest(fields(rows@), name as int, version as int),
{
    let ghost all = fields(rows@);
    let mut r: StringHashMap<String> = StringHashMap::new();
    let mut i: usize = 0;
    assert(all.take(0) =~= Seq::<Seq<Seq<char>>>::empty());
    assert(text::text_map(r@) =~= Map::<Seq<char>, Seq<char>>::empty());
    while i < rows.len()
        invariant
            i <= rows@.len(),
            all == fields(rows@),
            text::text_map(r@) == latest(all.take(i as int), name as int, version as int),
        decreases rows@.len() - i,
    {
        assert(all.take(i + 1).drop_last() =~= all.take(i as int));
        assert(all.take(i + 1).last() == text::texts(rows@[i as int]@));
        let n = field_of(&rows[i], name);
        let v = field_of(&rows[i], version);
        if !n.is_empty() && !v.is_empty() && !r.contains_key(n) {
            let ghost before = r@;
            r.insert(n.to_owned(), v.to_owned());
            assert(text::text_map(r@) =~= text::text_map(before).insert(n@, v@));
        }
        i += 1;
    }
    assert(all.take(i as int) =~= all);
    r
}

/// Reads the newest version of every crate from the bytes of the file. An error
/// in the header row comes before a missing column, and that before an error in
/// the other rows.
pub fn load_latest_versions(data: &[u8]) -> (r: Result<StringHashMap<String>, LatestError>)
    ensures
        match r {
            Ok(m) => {
                &&& csv_headers(data@) is Some
                &&& columns(csv_headers(data@)->0) is Some
                &&& csv_records(data@) is Some
                &&& text::text_map(m@) == table(csv_headers(data@)->0, csv_records(data@)->0)
            },
            Err(LatestError::MissingColumn(missing)) => {
                &&& csv_headers(data@) is Some
                &&& columns(csv_headers(data@)->0) is None
                &&& missing@ == if column(csv_headers(data@)->0, "crate_name"@) is None {
                    "crate_name"@
                } else {
                    "crate_version"@
                }
            },
            Err(LatestError::Csv(_)) => csv_headers(data@) is None || (columns(
                csv_headers(data@)->0,
            ) is Some && csv_records(data@) is None),
        },
{
    let headers = match read_headers(data) {
        Ok(headers) => headers,
        Err(e) => return Err(LatestError::Csv(e)),
    };
    let (name, version) = match find_columns(&headers) {
        Ok(at) => at,
        Err(e) => return Err(e),
    };
    match read_records(data) {
        Ok(rows) => Ok(collect_latest(&rows, name, version)),
        Err(e) => Err(LatestError::Csv(e)),
    }
}

proof fn lemma_latest_grows(rows: Seq<Seq<Seq<char>>>, name: int, version: int, n: int, key: Seq<
    char,
>)
    requires
        0 <= n <= rows.len(),
        latest(rows.take(n), name, version).contains_key(key),
    ensures
        latest(rows, name, version).contains_key(key),
        latest(rows, name, version)[key] == latest(rows.take(n), name, version)[key],
    decreases rows.len() - n,
{
    if n < rows.len() {
        assert(rows.take(n + 1).drop_last() =~= rows.take(n));
        lemma_latest_grows(rows, name, version, n + 1, key);
    } else {
        assert(rows.take(n) =~= rows);
    }
}

proof fn lemma_latest_from(rows: Seq<Seq<Seq<char>>>, name: int, version: int, key: Seq<char>)
    requires
        latest(rows, name, version).contains_key(key),
    ensures
        exists|j: int|
            0 <= j < rows.len() && field(#[trigger] rows[j], name) == key && key.len() > 0
                && field(rows[j], version).len() > 0,
    decreases rows.len(),
{
    if rows.len() > 0 {
        let before = rows.drop_last();
        if latest(before, name, version).contains_key(key) {
            lemma_latest_from(before, name, version, key);
            let j = choose|j: int|
                0 <= j < before.len() && field(#[trigger] before[j], name) == key && key.len() > 0
                    && field(before[j], version).len() > 0;
            assert(rows[j] == before[j]);
        } else {
            assert(field(rows[rows.len() - 1], name) == key);
        }
    }
}

/// A crate is known exactly where some row gives it a version, and its version
/// is that of the first such row, whatever later rows say.
pub proof fn law_first_row_counts(rows: Seq<Seq<Seq<char>>>, name: int, version: int, i: int)
    requires
        0 <= i < rows.len(),
        field(rows[i], name).len() > 0,
        field(rows[i], version).len() > 0,
        forall|j: int|
            0 <= j < i ==> field(#[trigger] rows[j], name) != field(rows[i], name) || field(
                rows[j],
                version,
            ).len() == 0,
    ensures
        latest(rows, name, version).contains_key(field(rows[i], name)),
        latest(rows, name, version)[field(rows[i], name)] == field(rows[i], version),
{
    let key = field(rows[i], name);
    let before = rows.take(i);
    if latest(before, name, version).contains_key(key) {
        lemma_latest_from(before, name, version, key);
        let j = choose|j: int|
            0 <= j < before.len() && field(#[trigger] before[j], name) == key && key.len() > 0
                && field(before[j], version).len() > 0;
        assert(rows[j] == before[j]);
        assert(false);
    }
    assert(rows.take(i + 1).drop_last() =~= before);
    assert(rows.take(i + 1).last() == rows[i]);
    lemma_latest_grows(rows, name, version, i + 1, key);
}

/// A crate that no row gives a version is not known, and no known version is
/// empty.
pub proof fn law_unknown_crate(rows: Seq<Seq<Seq<char>>>, name: int, version: int, key: Seq<char>)
    ensures
        latest(rows, name, version).contains_key(key) ==> exists|j: int|
            0 <= j < rows.len() && field(#[trigger] rows[j], name) == key && key.len() > 0
                && field(rows[j], version).len() > 0,
        latest(rows, name, version).contains_key(key) ==> latest(rows, name, version)[key].len()
            > 0,
    decreases rows.len(),
{
    if latest(rows, name, version).contains_key(key) {
        lemma_latest_from(rows, name, version, key);
        law_unknown_crate(rows.drop_last(), name, version, key);
    }
}

/// A column is found by its name, and the first of that name is taken.
pub proof fn law_column_is_the_first_of_its_name(headers: Seq<Seq<char>>, name: Seq<char>)
    ensures
        match column(headers, name) {
            Some(i) => 0 <= i < headers.len() && headers[i] == name && forall|j: int|
                0 <= j < i ==> #[trigger] headers[j] != name,
            None => forall|j: int| 0 <= j < headers.len() ==> #[trigger] headers[j] != name,
        },
    decreases headers.len(),
{
    if headers.len() > 0 {
        let before = headers.drop_last();
        law_column_is_the_first_of_its_name(before, name);
        match column(before, name) {
            Some(i) => {
                assert(headers[i] == before[i]);
                assert forall|j: int| 0 <= j < i implies #[trigger] headers[j] != name by {
                    assert(before[j] == headers[j]);
                }
            },
            None => {
                assert forall|j: int| 0 <= j < before.len() implies #[trigger] headers[j]
                    != name by {
                    assert(before[j] == headers[j]);
                }
            },
        }
    }
}

/// The names stand under `crate_name` and the versions under `crate_version`,
/// and a table without either column tells of no crate.
pub proof fn law_table_goes_by_its_columns(headers: Seq<Seq<char>>, rows: Seq<Seq<Seq<char>>>)
    ensures
        columns(headers) is Some <==> headers.contains("crate_name"@) && headers.contains(
            "crate_version"@,
        ),
        columns(headers) matches Some((name, version)) ==> {
            &&& 0 <= name < headers.len() && headers[name] == "crate_name"@
            &&& 0 <= version < headers.len() && headers[version] == "crate_version"@
            &&& table(headers, rows) == latest(rows, name, version)
        },
{
    law_column_is_the_first_of_its_name(headers, "crate_name"@);
    law_column_is_the_first_of_its_name(headers, "crate_version"@);
}

/// A field is what the row holds in the column, without white space at its ends,
/// and empty where the row is too short.
pub proof fn law_field_is_trimmed(row: Seq<Seq<char>>, i: int)
    requires
        0 <= i,
    ensures
        i < row.len() ==> field(row, i) == text::trimmed(row[i]),
        i >= row.len() ==> field(row, i).len() == 0,
{
}

/// A table says what each field of each row holds.
pub proof fn law_fields_say_what_they_hold(rows: Seq<Vec<String>>, i: int, j: int)
    requires
        0 <= i < rows.len(),
        0 <= j < rows[i]@.len(),
    ensures
        fields(rows).len() == rows.len(),
        fields(rows)[i].len() == rows[i]@.len(),
        fields(rows)[i][j] == rows[i]@[j]@,
{
}

/// A missing column is reported by its name.
pub proof fn law_missing_column_is_named(error: LatestError)
    ensures
        error matches LatestError::MissingColumn(column) ==> error.says() == Some(
            "missing column "@ + column@ + " in data.txt"@,
        ),
        error is Csv ==> error.says() is None,
{
}

} // verus!
