//! The files of the registry index: where they are, and what a line of them
//! says.

use vstd::prelude::*;
use vstd::string::*;
use vstd::utf8;
use crate::deps::{self, DependencyView};
use crate::json::{self, Json, JsonView};
use crate::text;
use crate::times::{self, Timestamp};

verus! {

/// Whether the name can be cut where the index cuts it: no cut falls inside a
/// character.
pub open spec fn can_be_cut(name: Seq<char>) -> bool {
    let bytes = utf8::encode_utf8(name);
    &&& bytes.len() == 3 ==> utf8::is_char_boundary(bytes, 1)
    &&& bytes.len() > 3 ==> utf8::is_char_boundary(bytes, 2) && utf8::is_char_boundary(bytes, 4)
}

/// The characters of the bytes `from..to` of a text.
pub open spec fn byte_range(name: Seq<char>, from: int, to: int) -> Seq<char> {
    utf8::decode_utf8(utf8::encode_utf8(name).subrange(from, to))
}

/// The parts of the path of a name's file below the index: by the length of the
/// name in bytes for the short ones, else by its first two pairs of bytes.
pub open spec fn index_path(name: Seq<char>) -> Seq<Seq<char>> {
    let n = utf8::encode_utf8(name).len();
    if n == 0 {
        Seq::empty()
    } else if n == 1 {
        seq!["1"@, name]
    } else if n == 2 {
        seq!["2"@, name]
    } else if n == 3 {
        seq!["3"@, byte_range(name, 0, 1), name]
    } else {
        seq![byte_range(name, 0, 2), byte_range(name, 2, 4), name]
    }
}

fn cut<'a>(s: &'a str, at: usize) -> (r: (&'a str, &'a str))
    requires
        utf8::is_char_boundary(utf8::encode_utf8(s@), at as int),
        at <= utf8::encode_utf8(s@).len(),
    ensures
        r.0@ == byte_range(s@, 0, at as int),
        utf8::encode_utf8(r.0@) == utf8::encode_utf8(s@).subrange(0, at as int),
        utf8::encode_utf8(r.1@) == utf8::encode_utf8(s@).subrange(
            at as int,
            utf8::encode_utf8(s@).len() as int,
        ),
{
    let r = s.split_at(at);
    proof {
        utf8::encode_utf8_decode_utf8(r.0@);
    }
    r
}

/// Whether the name of a crate has a path below the index.
pub fn has_index_path(crate_name: &str) -> (yes: bool)
    ensures
        yes == can_be_cut(text::lowercased(crate_name@)),
{
    let lower = text::to_ascii_lowercase(crate_name);
    let name = lower.as_str();
    let n: usize = name.as_bytes().len();
    if n == 3 {
        name.is_char_boundary(1)
    } else if n > 3 {
        name.is_char_boundary(2) && name.is_char_boundary(4)
    } else {
        true
    }
}

/// The parts of the path of a crate's file below the index. The name counts in
/// lower case.
pub fn crate_name_to_index_rel_path(crate_name: &str) -> (parts: Vec<String>)
    requires
        can_be_cut(text::lowercased(crate_name@)),
    ensures
        text::texts(parts@) == index_path(text::lowercased(crate_name@)),
{
    let lower = text::to_ascii_lowercase(crate_name);
    let name = lower.as_str();
    let ghost bytes = utf8::encode_utf8(name@);
    let mut parts: Vec<String> = Vec::new();
    let n: usize = name.as_bytes().len();
    assert(n == bytes.len());
    if n == 1 {
        parts.push("1".to_owned());
        parts.push(lower.clone());
    } else if n == 2 {
        parts.push("2".to_owned());
        parts.push(lower.clone());
    } else if n == 3 {
        let (first, _) = cut(name, 1);
        parts.push("3".to_owned());
        parts.push(first.to_owned());
        parts.push(lower.clone());
    } else if n > 3 {
        let (start, _) = cut(name, 4);
        proof {
            utf8::encode_utf8_valid_utf8(name@);
            utf8::encode_utf8_valid_utf8(start@);
            assert(utf8::encode_utf8(start@) == bytes.subrange(0, 4));
            lemma_boundary_in_prefix(bytes, 2, 4);
        }
        let (first, second) = start.split_at(2);
        proof {
            utf8::encode_utf8_decode_utf8(first@);
            utf8::encode_utf8_decode_utf8(second@);
            assert(bytes.subrange(0, 4).subrange(0, 2) =~= bytes.subrange(0, 2));
            assert(bytes.subrange(0, 4).subrange(2, 4) =~= bytes.subrange(2, 4));
        }
        parts.push(first.to_owned());
        parts.push(second.to_owned());
        parts.push(lower.clone());
    }
    assert(text::texts(parts@) =~= index_path(name@));
    parts
}

proof fn lemma_boundary_in_prefix(bytes: Seq<u8>, i: int, n: int)
    requires
        utf8::valid_utf8(bytes),
        0 <= i < n <= bytes.len(),
        utf8::is_char_boundary(bytes, i),
        utf8::valid_utf8(bytes.subrange(0, n)),
    ensures
        utf8::is_char_boundary(bytes.subrange(0, n), i),
{
    utf8::is_char_boundary_iff_not_is_continuation_byte(bytes, i);
    utf8::is_char_boundary_iff_not_is_continuation_byte(bytes.subrange(0, n), i);
}

/// Names of ASCII characters can be cut, and their path can be told by
/// characters.
pub proof fn law_ascii_index_path(name: Seq<char>)
    requires
        utf8::is_ascii_chars(name),
    ensures
        can_be_cut(name),
        index_path(name) == if name.len() == 0 {
            Seq::<Seq<char>>::empty()
        } else if name.len() == 1 {
            seq!["1"@, name]
        } else if name.len() == 2 {
            seq!["2"@, name]
        } else if name.len() == 3 {
            seq!["3"@, name.subrange(0, 1), name]
        } else {
            seq![name.subrange(0, 2), name.subrange(2, 4), name]
        },
{
    let bytes = utf8::encode_utf8(name);
    utf8::is_ascii_chars_encode_utf8(name);
    utf8::encode_utf8_valid_utf8(name);
    assert forall|i: int| 0 <= i < name.len() implies utf8::is_char_boundary(bytes, i) by {
        assert(name[i] as u8 == bytes[i]);
        let b = bytes[i];
        let c = name[i];
        assert(0 <= c as u32 <= 0x7f);
        assert(b <= 0x7f);
        assert(!utf8::is_continuation_byte(b));
        utf8::is_char_boundary_iff_not_is_continuation_byte(bytes, i);
    }
    if name.len() > 3 {
        utf8::is_char_boundary_start_end_of_seq(bytes);
        lemma_ascii_range(name, 0, 2);
        lemma_ascii_range(name, 2, 4);
    } else if name.len() == 3 {
        lemma_ascii_range(name, 0, 1);
    }
}

proof fn lemma_ascii_range(name: Seq<char>, from: int, to: int)
    requires
        utf8::is_ascii_chars(name),
        0 <= from <= to <= name.len(),
    ensures
        byte_range(name, from, to) == name.subrange(from, to),
{
    let part = name.subrange(from, to);
    utf8::is_ascii_chars_encode_utf8(name);
    utf8::is_ascii_chars_encode_utf8(part);
    assert(utf8::encode_utf8(part) =~= utf8::encode_utf8(name).subrange(from, to)) by {
        assert forall|i: int| 0 <= i < part.len() implies utf8::encode_utf8(part)[i]
            == utf8::encode_utf8(name).subrange(from, to)[i] by {
            assert(part[i] == name[from + i]);
        }
    }
    utf8::encode_utf8_decode_utf8(part);
}

/// Two names have the same path exactly when they differ at most in the case of
/// ASCII letters.
pub proof fn law_index_path_ignores_case(a: Seq<char>, b: Seq<char>)
    requires
        a.len() > 0,
        b.len() > 0,
    ensures
        index_path(text::lowercased(a)) == index_path(text::lowercased(b)) <==> text::lowercased(a)
            == text::lowercased(b),
{
    lemma_path_ends_in_name(text::lowercased(a));
    lemma_path_ends_in_name(text::lowercased(b));
}

proof fn lemma_path_ends_in_name(name: Seq<char>)
    requires
        name.len() > 0,
    ensures
        index_path(name).len() > 0,
        index_path(name).last() == name,
{
    utf8::encode_utf8_decode_utf8(name);
    if utf8::encode_utf8(name).len() == 0 {
        assert(utf8::encode_utf8(name) =~= utf8::encode_utf8(Seq::<char>::empty()));
        utf8::encode_utf8_decode_utf8(Seq::<char>::empty());
    }
}

/// One version of a crate, as the index lists it.
#[derive(Debug)]
pub struct ParsedCrateVersionRow {
    pub version: String,
    pub deps: Json,
    pub features2: Option<Json>,
    pub pubtime: Option<Timestamp>,
}

/// What a [`ParsedCrateVersionRow`] says.
pub struct RowView {
    pub version: Seq<char>,
    pub deps: JsonView,
    pub features2: Option<JsonView>,
    pub pubtime: Option<Timestamp>,
}

/// What an optional document says.
pub open spec fn option_view(doc: Option<Json>) -> Option<JsonView> {
    match doc {
        Some(doc) => Some(doc@),
        None => None,
    }
}

impl View for ParsedCrateVersionRow {
    type V = RowView;

    open spec fn view(&self) -> RowView {
        RowView {
            version: self.version@,
            deps: self.deps@,
            features2: option_view(self.features2),
            pubtime: self.pubtime,
        }
    }
}

/// The views of a list of rows, in order.
pub open spec fn row_views(rows: Seq<ParsedCrateVersionRow>) -> Seq<RowView> {
    rows.map_values(|row: ParsedCrateVersionRow| row@)
}

/// What is kept of one item of a `deps` list: name, requirement and kind, the
/// kind `normal` where there is none. An item without a name or a requirement is
/// not kept.
pub open spec fn minimal_dep(item: JsonView) -> Option<JsonView> {
    match (item.text_at("name"@), item.text_at("req"@)) {
        (Some(name), Some(req)) => Some(
            JsonView::Object(
                seq![
                    ("name"@, JsonView::Text(name)),
                    ("req"@, JsonView::Text(req)),
                    (
                        "kind"@,
                        JsonView::Text(
                            match item.text_at("kind"@) {
                                Some(kind) => kind,
                                None => "normal"@,
                            },
                        ),
                    ),
                ],
            ),
        ),
        _ => None,
    }
}

/// What is kept of the items, in order.
pub open spec fn minimal_items(items: Seq<JsonView>) -> Seq<JsonView>
    decreases items.len(),
{
    if items.len() == 0 {
        Seq::empty()
    } else {
        match minimal_dep(items.last()) {
            Some(item) => minimal_items(items.drop_last()).push(item),
            None => minimal_items(items.drop_last()),
        }
    }
}

/// What is kept of a `deps` document: an array, and an empty one where there was
/// none.
pub open spec fn minimal_deps(deps: Option<JsonView>) -> JsonView {
    JsonView::Array(
        match deps {
            Some(doc) => match doc.as_array() {
                Some(items) => minimal_items(items),
                None => Seq::empty(),
            },
            None => Seq::empty(),
        },
    )
}

/// The row for one line of an index file; none for a line without a version and
/// for a yanked version.
pub open spec fn index_row(line: JsonView) -> Option<RowView> {
    match line.text_at("vers"@) {
        Some(version) => if version.len() == 0 || (line.get("yanked"@) is Some && line.get(
            "yanked"@,
        )->0.as_bool() == Some(true)) {
            None
        } else {
            Some(
                RowView {
                    version,
                    deps: minimal_deps(line.get("deps"@)),
                    features2: line.get("features2"@),
                    pubtime: match line.text_at("pubtime"@) {
                        Some(raw) => times::timestamp(times::rfc3339_instant(raw)),
                        None => None,
                    },
                },
            )
        },
        None => None,
    }
}

fn minimal_dep_from(item: &Json) -> (r: Option<Json>)
    ensures
        option_view(r) == minimal_dep(item@),
{
    let name = match item.text_at("name") {
        Some(name) => name.clone(),
        None => return None,
    };
    let req = match item.text_at("req") {
        Some(req) => req.clone(),
        None => return None,
    };
    let kind = match item.text_at("kind") {
        Some(kind) => kind.clone(),
        None => "normal".to_owned(),
    };
    let mut entries: Vec<(String, Json)> = Vec::new();
    entries.push(("name".to_owned(), Json::Text(name)));
    entries.push(("req".to_owned(), Json::Text(req)));
    entries.push(("kind".to_owned(), Json::Text(kind)));
    let r = Json::Object(entries);
    proof {
        reveal_with_fuel(Json::view, 2);
        let kept = minimal_dep(item@)->0->Object_0;
        assert(r@->Object_0[0] == kept[0]);
        assert(r@->Object_0[1] == kept[1]);
        assert(r@->Object_0[2] == kept[2]);
        assert(r@->Object_0 =~= kept);
    }
    Some(r)
}

/// Keeps of a `deps` document the name, the requirement and the kind of each
/// item.
pub fn extract_minimal_deps_json(deps: Option<&Json>) -> (r: Json)
    ensures
        r@ == minimal_deps(
            match deps {
                Some(doc) => Some(doc@),
                None => None,
            },
        ),
{
    let mut out: Vec<Json> = Vec::new();
    assert(json::views(out@) =~= Seq::<JsonView>::empty());
    if let Some(doc) = deps {
        if let Some(items) = doc.as_array() {
            let ghost all = json::views(items@);
            let mut i: usize = 0;
            assert(all.take(0) =~= Seq::<JsonView>::empty());
            while i < items.len()
                invariant
                    i <= items@.len(),
                    all == json::views(items@),
                    json::views(out@) == minimal_items(all.take(i as int)),
                decreases items@.len() - i,
            {
                assert(all.take(i + 1).drop_last() =~= all.take(i as int));
                assert(all.take(i + 1).last() == items@[i as int]@);
                if let Some(item) = minimal_dep_from(&items[i]) {
                    let ghost before = out@;
                    out.push(item);
                    assert(json::views(out@) =~= json::views(before).push(item@));
                }
                i += 1;
            }
            assert(all.take(i as int) =~= all);
        }
    }
    let r = Json::Array(out);
    assert(r@->Array_0 =~= json::views(out@));
    r
}

/// Reads the row that one document of an index file stands for.
pub fn index_version_row(value: &Json) -> (r: Option<ParsedCrateVersionRow>)
    ensures
        match r {
            Some(row) => index_row(value@) == Some(row@),
            None => index_row(value@) is None,
        },
{
    let version = match value.text_at("vers") {
        Some(version) => if version.as_str().is_empty() {
            return None;
        } else {
            version.clone()
        },
        None => return None,
    };
    if let Some(flag) = value.get("yanked") {
        if let Some(yanked) = flag.as_bool() {
            if yanked {
                return None;
            }
        }
    }
    let deps = extract_minimal_deps_json(value.get("deps"));
    let features2 = match value.get("features2") {
        Some(doc) => Some(doc.copy()),
        None => None,
    };
    let pubtime = match value.text_at("pubtime") {
        Some(raw) => times::parse_pubtime_rfc3339(raw.as_str()),
        None => None,
    };
    Some(ParsedCrateVersionRow { version, deps, features2, pubtime })
}

/// Why a line of an index file cannot be read.
#[derive(Debug)]
pub enum IndexError {
    /// The line is no JSON.
    Json(serde_json::Error),
}

/// What a line of an index file gives: an error where it is no JSON, else the
/// row that it stands for, if it stands for one.
pub open spec fn line_row(line: Seq<char>) -> Result<Option<RowView>, ()> {
    match json::parsed_json(line) {
        Some(doc) => Ok(index_row(doc)),
        None => Err(()),
    }
}

/// Reads one line of an index file.
pub fn parse_index_version_line(line: &str) -> (r: Result<Option<ParsedCrateVersionRow>, IndexError>)
    ensures
        match r {
            Ok(Some(row)) => line_row(line@) == Ok::<Option<RowView>, ()>(Some(row@)),
            Ok(None) => line_row(line@) == Ok::<Option<RowView>, ()>(None),
            Err(_) => line_row(line@) is Err,
        },
{
    match json::parse_json(line) {
        Ok(value) => Ok(index_version_row(&value)),
        Err(e) => Err(IndexError::Json(e)),
    }
}

/// The rows of an index file: its lines without white space at their ends, the
/// empty ones left out. The first line that is no JSON spoils the file.
pub open spec fn file_rows(lines: Seq<Seq<char>>) -> Result<Seq<RowView>, ()>
    decreases lines.len(),
{
    if lines.len() == 0 {
        Ok(Seq::empty())
    } else {
        let line = text::trimmed(lines.last());
        match file_rows(lines.drop_last()) {
            Err(_) => Err(()),
            Ok(before) => if line.len() == 0 {
                Ok(before)
            } else {
                match line_row(line) {
                    Err(_) => Err(()),
                    Ok(None) => Ok(before),
                    Ok(Some(row)) => Ok(before.push(row)),
                }
            },
        }
    }
}

proof fn lemma_spoilt(lines: Seq<Seq<char>>, n: int)
    requires
        0 <= n <= lines.len(),
        file_rows(lines.take(n)) is Err,
    ensures
        file_rows(lines) is Err,
    decreases lines.len() - n,
{
    if n < lines.len() {
        assert(lines.take(n + 1).drop_last() =~= lines.take(n));
        lemma_spoilt(lines, n + 1);
    } else {
        assert(lines.take(n) =~= lines);
    }
}

/// Reads the lines of an index file.
pub fn parse_crate_versions(lines: &Vec<String>) -> (r: Result<Vec<ParsedCrateVersionRow>, IndexError>)
    ensures
        match r {
            Ok(rows) => file_rows(text::texts(lines@)) == Ok::<Seq<RowView>, ()>(row_views(rows@)),
            Err(_) => file_rows(text::texts(lines@)) is Err,
        },
{
    let ghost all = text::texts(lines@);
    let mut rows: Vec<ParsedCrateVersionRow> = Vec::new();
    let mut i: usize = 0;
    assert(all.take(0) =~= Seq::<Seq<char>>::empty());
    assert(row_views(rows@) =~= Seq::<RowView>::empty());
    while i < lines.len()
        invariant
            i <= lines@.len(),
            all == text::texts(lines@),
            file_rows(all.take(i as int)) == Ok::<Seq<RowView>, ()>(row_views(rows@)),
        decreases lines@.len() - i,
    {
        assert(all.take(i + 1).drop_last() =~= all.take(i as int));
        assert(all.take(i + 1).last() == lines@[i as int]@);
        let line = text::trim(lines[i].as_str());
        if !line.is_empty() {
            match parse_index_version_line(line) {
                Ok(Some(row)) => {
                    let ghost before = rows@;
                    rows.push(row);
                    assert(row_views(rows@) =~= row_views(before).push(row@));
                },
                Ok(None) => {},
                Err(e) => {
                    proof {
                        lemma_spoilt(all, i + 1);
                    }
                    return Err(e);
                },
            }
        }
        i += 1;
    }
    assert(all.take(i as int) =~= all);
    Ok(rows)
}

/// No row of an index file is that of a yanked version, and none is without a
/// version.
pub proof fn law_rows_are_usable(line: JsonView)
    requires
        index_row(line) is Some,
    ensures
        index_row(line)->0.version.len() > 0,
        line.get("yanked"@) != Some(JsonView::Bool(true)),
        index_row(line)->0.deps is Array,
{
}

/// Whether an item of a `deps` list has a requirement.
pub open spec fn has_req(item: JsonView) -> bool {
    item.text_at("req"@) is Some
}

/// The dependencies of the items that have a requirement, in order.
pub open spec fn required_dependencies(items: Seq<JsonView>) -> Seq<DependencyView>
    decreases items.len(),
{
    if items.len() == 0 {
        Seq::empty()
    } else {
        let before = required_dependencies(items.drop_last());
        match deps::dependency_of(items.last()) {
            Some(d) => if has_req(items.last()) {
                before.push(d)
            } else {
                before
            },
            None => before,
        }
    }
}

/// What is kept of an item has the three members and is kept as it is.
proof fn lemma_kept_members(item: JsonView)
    requires
        minimal_dep(item) is Some,
    ensures
        ({
            let kept = minimal_dep(item)->0;
            &&& kept.text_at("name"@) == item.text_at("name"@)
            &&& kept.text_at("req"@) == item.text_at("req"@)
            &&& kept.text_at("kind"@) == Some(
                match item.text_at("kind"@) {
                    Some(kind) => kind,
                    None => "normal"@,
                },
            )
            &&& minimal_dep(kept) == Some(kept)
        }),
{
    let kept = minimal_dep(item)->0;
    let entries = kept->Object_0;
    reveal_strlit("name");
    reveal_strlit("req");
    reveal_strlit("kind");
    assert("name"@.len() == 4 && "req"@.len() == 3 && "kind"@.len() == 4);
    assert("name"@[0] != "kind"@[0]);
    reveal_with_fuel(json::lookup, 4);
    assert(entries.drop_first()[0] == entries[1]);
    assert(entries.drop_first().drop_first()[0] == entries[2]);
    assert(kept.get("name"@) == Some(entries[0].1));
    assert(kept.get("req"@) == Some(entries[1].1));
    assert(kept.get("kind"@) == Some(entries[2].1));
    assert(minimal_dep(kept)->0->Object_0 =~= entries);
}

proof fn lemma_minimal_dep(item: JsonView)
    ensures
        minimal_dep(item) is Some ==> deps::dependency_of(minimal_dep(item)->0)
            == deps::dependency_of(item) && has_req(item),
        minimal_dep(item) is None ==> deps::dependency_of(item) is None || !has_req(item),
{
    if minimal_dep(item) is Some {
        lemma_kept_members(item);
        reveal_strlit("normal");
        reveal_strlit("dev");
        reveal_strlit("development");
        reveal_strlit("build");
        assert("normal"@.len() == 6 && "dev"@.len() == 3 && "development"@.len() == 11
            && "build"@.len() == 5);
        assert(deps::kind_of("normal"@) == deps::DepType::Normal);
    }
}

proof fn lemma_minimal_items(items: Seq<JsonView>)
    ensures
        deps::dependencies(minimal_items(items)) == required_dependencies(items),
    decreases items.len(),
{
    if items.len() > 0 {
        lemma_minimal_items(items.drop_last());
        lemma_minimal_dep(items.last());
        if let Some(kept) = minimal_dep(items.last()) {
            let before = minimal_items(items.drop_last());
            assert(before.push(kept).drop_last() =~= before);
        }
    }
}

/// The dependencies that are read back from what is kept of an index line are
/// those of the line itself that have a requirement, with the same names, kinds
/// and requirements, in the same order.
pub proof fn law_kept_dependencies_are_read_back(deps: JsonView)
    requires
        deps is Array,
    ensures
        deps::listed_dependencies(minimal_deps(Some(deps))) == required_dependencies(
            deps->Array_0,
        ),
{
    lemma_minimal_items(deps->Array_0);
}

/// What is kept is kept as it is when it is taken for an index line again.
pub proof fn law_kept_dependencies_stay(deps: Option<JsonView>)
    ensures
        minimal_deps(Some(minimal_deps(deps))) == minimal_deps(deps),
{
    let items = match deps {
        Some(doc) => match doc.as_array() {
            Some(items) => items,
            None => Seq::empty(),
        },
        None => Seq::empty(),
    };
    lemma_minimal_items_stay(items);
}

proof fn lemma_minimal_items_stay(items: Seq<JsonView>)
    ensures
        minimal_items(minimal_items(items)) == minimal_items(items),
    decreases items.len(),
{
    if items.len() > 0 {
        lemma_minimal_items_stay(items.drop_last());
        if let Some(kept) = minimal_dep(items.last()) {
            let before = minimal_items(items.drop_last());
            lemma_kept_members(items.last());
            assert(before.push(kept).drop_last() =~= before);
        }
    }
}

/// A row says what its fields hold.
pub proof fn law_row_says_its_fields(row: ParsedCrateVersionRow)
    ensures
        row@.version == row.version@,
        row@.deps == row.deps@,
        row.features2 matches Some(doc) ==> row@.features2 == Some(doc@),
        row.features2 is None ==> row@.features2 is None,
        row@.pubtime == row.pubtime,
{
}

/// What a row takes from its line: the version from `vers`, the extra features
/// from `features2` as it is, there exactly where that member is, and the time
/// from `pubtime` where that is a text in the notation of RFC 3339. There is a
/// row exactly where `vers` is a text that is not empty and `yanked` is not
/// true.
pub proof fn law_row_members(line: JsonView)
    ensures
        index_row(line) is Some <==> line.get("vers"@) is Some && line.get("vers"@)->0 is Text
            && line.get("vers"@)->0->Text_0.len() > 0 && line.get("yanked"@) != Some(
            JsonView::Bool(true),
        ),
        index_row(line) matches Some(row) ==> {
            &&& line.get("vers"@) == Some(JsonView::Text(row.version))
            &&& row.features2 == line.get("features2"@)
            &&& row.deps == minimal_deps(line.get("deps"@))
            &&& line.get("pubtime"@) matches Some(JsonView::Text(raw)) ==> match times::rfc3339_instant(
                raw,
            ) {
                Some((secs, nanos)) => row.pubtime == Some(Timestamp { secs, nanos }),
                None => row.pubtime is None,
            }
            &&& !(line.get("pubtime"@) matches Some(JsonView::Text(_))) ==> row.pubtime is None
        },
{
}

/// No other member counts: two lines that agree in these five give the same row.
pub proof fn law_row_depends_on_five_members(a: JsonView, b: JsonView)
    requires
        a.get("vers"@) == b.get("vers"@),
        a.get("yanked"@) == b.get("yanked"@),
        a.get("deps"@) == b.get("deps"@),
        a.get("features2"@) == b.get("features2"@),
        a.get("pubtime"@) == b.get("pubtime"@),
    ensures
        index_row(a) == index_row(b),
{
}

/// Each part of a row depends on one member of its line: two lines that give
/// rows and agree in that member agree in that part.
pub proof fn law_row_parts_depend_on_one_member(a: JsonView, b: JsonView)
    requires
        index_row(a) is Some,
        index_row(b) is Some,
    ensures
        a.get("vers"@) == b.get("vers"@) <==> index_row(a)->0.version == index_row(b)->0.version,
        a.get("deps"@) == b.get("deps"@) ==> index_row(a)->0.deps == index_row(b)->0.deps,
        a.get("features2"@) == b.get("features2"@) <==> index_row(a)->0.features2
            == index_row(b)->0.features2,
        a.get("pubtime"@) == b.get("pubtime"@) ==> index_row(a)->0.pubtime
            == index_row(b)->0.pubtime,
{
}

/// What is kept of an item: its name, its requirement and its kind, which is
/// normal where it has none, and nothing else. An item is kept exactly where it
/// has a name and a requirement.
pub proof fn law_kept_item(item: JsonView)
    ensures
        minimal_dep(item) is Some <==> item.get("name"@) is Some && item.get("name"@)->0 is Text
            && item.get("req"@) is Some && item.get("req"@)->0 is Text,
        minimal_dep(item) matches Some(kept) ==> {
            &&& kept.get("name"@) == item.get("name"@)
            &&& kept.get("req"@) == item.get("req"@)
            &&& item.get("kind"@) matches Some(JsonView::Text(kind)) ==> kept.get("kind"@) == Some(
                JsonView::Text(kind),
            )
            &&& !(item.get("kind"@) matches Some(JsonView::Text(_))) ==> kept.get("kind"@) == Some(
                JsonView::Text("normal"@),
            )
            &&& kept is Object && kept->Object_0.len() == 3
        },
{
    if minimal_dep(item) is Some {
        lemma_kept_members(item);
    }
}

/// What is kept of two lists, one after the other, is what is kept of the first
/// and then what is kept of the second.
pub proof fn law_kept_of_lists(a: Seq<JsonView>, b: Seq<JsonView>, item: JsonView)
    ensures
        minimal_items(a + b) == minimal_items(a) + minimal_items(b),
        minimal_items(seq![item]) == match minimal_dep(item) {
            Some(kept) => seq![kept],
            None => Seq::<JsonView>::empty(),
        },
        minimal_deps(Some(JsonView::Array(a))) == JsonView::Array(minimal_items(a)),
        !(item is Array) ==> minimal_deps(Some(item)) == JsonView::Array(Seq::empty()),
        minimal_deps(None) == JsonView::Array(Seq::empty()),
    decreases b.len(),
{
    reveal_with_fuel(minimal_items, 2);
    assert(seq![item].drop_last() =~= Seq::<JsonView>::empty());
    assert(minimal_items(seq![item]) =~= match minimal_dep(item) {
        Some(kept) => seq![kept],
        None => Seq::<JsonView>::empty(),
    });
    if b.len() == 0 {
        assert(a + b =~= a);
    } else {
        law_kept_of_lists(a, b.drop_last(), item);
        assert((a + b).drop_last() =~= a + b.drop_last());
        assert((a + b).last() == b.last());
    }
    assert(minimal_items(a + b) =~= minimal_items(a) + minimal_items(b));
}

/// The rows of a file in two parts are those of the first part and then those of
/// the second, and one bad line in either spoils the file.
pub proof fn law_rows_of_parts(a: Seq<Seq<char>>, b: Seq<Seq<char>>)
    ensures
        match (file_rows(a), file_rows(b)) {
            (Ok(first), Ok(second)) => file_rows(a + b) == Ok::<Seq<RowView>, ()>(first + second),
            _ => file_rows(a + b) is Err,
        },
    decreases b.len(),
{
    if b.len() == 0 {
        assert(a + b =~= a);
        if let Ok(first) = file_rows(a) {
            assert(first + Seq::<RowView>::empty() =~= first);
        }
    } else {
        law_rows_of_parts(a, b.drop_last());
        assert((a + b).drop_last() =~= a + b.drop_last());
        assert((a + b).last() == b.last());
        if let (Ok(first), Ok(earlier)) = (file_rows(a), file_rows(b.drop_last())) {
            if let Ok(second) = file_rows(b) {
                assert(file_rows(a + b)->Ok_0 =~= first + second);
            }
        }
    }
}

/// A line of a file: white space at its ends does not count; an empty one gives
/// nothing, one that is no JSON spoils the file, and any other gives the row
/// that its document stands for, if it stands for one.
pub proof fn law_rows_of_a_line(line: Seq<char>)
    ensures
        text::trimmed(line).len() == 0 ==> file_rows(seq![line]) == Ok::<Seq<RowView>, ()>(
            Seq::empty(),
        ),
        text::trimmed(line).len() > 0 ==> match json::parsed_json(text::trimmed(line)) {
            None => file_rows(seq![line]) is Err,
            Some(doc) => match index_row(doc) {
                Some(row) => file_rows(seq![line]) == Ok::<Seq<RowView>, ()>(seq![row]),
                None => file_rows(seq![line]) == Ok::<Seq<RowView>, ()>(Seq::empty()),
            },
        },
{
    reveal_with_fuel(file_rows, 2);
    assert(seq![line].drop_last() =~= Seq::<Seq<char>>::empty());
    assert(seq![line].last() == line);
    if let Some(doc) = json::parsed_json(text::trimmed(line)) {
        if let Some(row) = index_row(doc) {
            assert(Seq::<RowView>::empty().push(row) =~= seq![row]);
        }
    }
}

/// The path of a name of four bytes and more: the directories are its first two
/// bytes and the two bytes after them, and the file has the whole name. A name
/// of three bytes has its first byte as a directory of its own.
pub proof fn law_index_path_by_bytes(name: Seq<char>)
    requires
        can_be_cut(name),
    ensures
        ({
            let bytes = utf8::encode_utf8(name);
            let path = index_path(name);
            &&& bytes.len() == 1 ==> path == seq!["1"@, name]
            &&& bytes.len() == 2 ==> path == seq!["2"@, name]
            &&& bytes.len() == 3 ==> path.len() == 3 && path[0] == "3"@ && utf8::encode_utf8(path[1])
                == bytes.take(1) && path[2] == name
            &&& bytes.len() >= 4 ==> path.len() == 3 && utf8::encode_utf8(path[0]) == bytes.take(2)
                && utf8::encode_utf8(path[1]) == bytes.subrange(2, 4) && path[2] == name
        }),
{
    let bytes = utf8::encode_utf8(name);
    utf8::encode_utf8_valid_utf8(name);
    if bytes.len() == 3 {
        utf8::valid_utf8_split(bytes, 1);
        assert(bytes.subrange(0, 1) =~= bytes.take(1));
        utf8::decode_utf8_encode_utf8(bytes.subrange(0, 1));
    } else if bytes.len() > 3 {
        utf8::valid_utf8_split(bytes, 2);
        utf8::valid_utf8_split(bytes, 4);
        assert(bytes.subrange(0, 2) =~= bytes.take(2));
        utf8::decode_utf8_encode_utf8(bytes.subrange(0, 2));
        let start = bytes.subrange(0, 4);
        lemma_boundary_in_prefix(bytes, 2, 4);
        utf8::valid_utf8_split(start, 2);
        assert(start.subrange(2, 4) =~= bytes.subrange(2, 4));
        utf8::decode_utf8_encode_utf8(bytes.subrange(2, 4));
    }
}

} // verus!
