use chrono::NaiveDateTime;
use crates_io::deps::{self, DepType};
use crates_io::index::{
    crate_name_to_index_rel_path, extract_minimal_deps_json, has_index_path, index_version_row,
    parse_crate_versions, parse_index_version_line, IndexError,
};
use crates_io::json::{self, Json};
use crates_io::times::Timestamp;

fn lines(text: &str) -> Vec<String> {
    text.split('\n').map(str::to_owned).collect()
}

fn text_at(doc: &Json, key: &str) -> Option<String> {
    doc.text_at(key).cloned()
}

#[test]
fn crate_name_to_index_rel_path_is_lowercase() {
    assert_eq!(
        crate_name_to_index_rel_path("GRE_dictation").join("/"),
        "gr/e_/gre_dictation"
    );
}

#[test]
fn short_names_have_directories_of_their_own() {
    assert_eq!(crate_name_to_index_rel_path(""), Vec::<String>::new());
    assert_eq!(crate_name_to_index_rel_path("A"), vec!["1", "a"]);
    assert_eq!(crate_name_to_index_rel_path("ab"), vec!["2", "ab"]);
    assert_eq!(crate_name_to_index_rel_path("Log"), vec!["3", "l", "log"]);
    assert_eq!(crate_name_to_index_rel_path("rand"), vec!["ra", "nd", "rand"]);
}

#[test]
fn names_are_cut_by_bytes() {
    assert_eq!(crate_name_to_index_rel_path("\u{e9}"), vec!["2", "\u{e9}"]);
    assert_eq!(
        crate_name_to_index_rel_path("\u{e9}\u{e9}X"),
        vec!["\u{e9}", "\u{e9}", "\u{e9}\u{e9}x"]
    );
    assert_eq!(crate_name_to_index_rel_path("a\u{e9}"), vec!["3", "a", "a\u{e9}"]);
}

#[test]
fn name_with_a_cut_inside_a_character_has_no_path() {
    for name in ["", "a", "\u{20}", "log", "serde", "\u{e9}\u{e9}", "a\u{e9}"] {
        assert!(has_index_path(name));
    }
    for name in ["\u{e9}a", "\u{20ac}", "a\u{e9}b", "ab\u{20ac}"] {
        assert!(!has_index_path(name));
    }
}

#[test]
fn path_of_lowercase_name_is_the_same() {
    assert_eq!(
        crate_name_to_index_rel_path("SERDE_Json"),
        crate_name_to_index_rel_path("serde_json")
    );
    assert_ne!(
        crate_name_to_index_rel_path("serde_json"),
        crate_name_to_index_rel_path("serde-json")
    );
}

#[test]
fn parse_index_version_line_extracts_minimal_fields() {
    let line = r#"{"name":"a","vers":"0.1.0","deps":[{"name":"base64","req":"^0.22","features":[],"optional":true,"default_features":true,"target":null,"kind":"normal"},{"name":"chrono","req":"^0.4","features":["serde"],"optional":false,"default_features":true,"target":null,"kind":"normal"}],"features2":{"serde":["dep:serde","chrono/serde"]},"yanked":false,"pubtime":"2026-01-15T12:53:12Z","v":2}"#;

    let parsed = parse_index_version_line(line).unwrap().unwrap();
    assert_eq!(parsed.version, "0.1.0");

    let deps = parsed.deps.as_array().unwrap();
    assert_eq!(deps.len(), 2);
    assert_eq!(text_at(&deps[0], "name").as_deref(), Some("base64"));
    assert_eq!(text_at(&deps[0], "req").as_deref(), Some("^0.22"));
    assert_eq!(text_at(&deps[0], "kind").as_deref(), Some("normal"));

    assert!(parsed.features2.is_some());

    let pubtime = parsed.pubtime.unwrap();
    let expected = NaiveDateTime::parse_from_str("2026-01-15 12:53:12", "%Y-%m-%d %H:%M:%S").unwrap();
    assert_eq!(
        pubtime,
        Timestamp {
            secs: expected.and_utc().timestamp(),
            nanos: expected.and_utc().timestamp_subsec_nanos(),
        }
    );
}

#[test]
fn parse_index_version_line_without_vers_returns_none() {
    let line = r#"{"name":"a","deps":[]}"#;
    let parsed = parse_index_version_line(line).unwrap();
    assert!(parsed.is_none());
}

#[test]
fn parse_crate_versions_from_file_skips_yanked_lines() {
    let text = [
        r#"{"name":"a","vers":"0.1.0","deps":[],"yanked":true,"v":2}"#,
        r#"{"name":"a","vers":"0.2.0","deps":[],"yanked":false,"v":2}"#,
        r#"{"name":"a","vers":"0.3.0","deps":[],"yanked":true,"v":2}"#,
    ]
    .join("\n");

    let parsed = parse_crate_versions(&lines(&text)).unwrap();

    assert_eq!(parsed.len(), 1);
    assert_eq!(parsed[0].version, "0.2.0");
}

#[test]
fn lines_without_a_usable_version_give_no_row() {
    for line in [
        r#"{"vers":""}"#,
        r#"{"vers":7}"#,
        r#"{"vers":"1.0.0","yanked":true}"#,
        r#"["vers"]"#,
        "null",
    ] {
        assert!(parse_index_version_line(line).unwrap().is_none());
    }
    let kept = parse_index_version_line(r#"{"vers":"1.0.0","yanked":"true"}"#).unwrap();
    assert_eq!(kept.unwrap().version, "1.0.0");
}

#[test]
fn line_that_is_no_json_is_an_error() {
    assert!(matches!(
        parse_index_version_line("{\"vers\":"),
        Err(IndexError::Json(_))
    ));
}

#[test]
fn empty_lines_are_passed_over_and_the_first_bad_line_spoils_the_file() {
    let good = parse_crate_versions(&lines(" \n\t{\"vers\":\"1.0.0\"} \n\n{\"vers\":\"2.0.0\"}"));
    let versions: Vec<String> = good.unwrap().into_iter().map(|row| row.version).collect();
    assert_eq!(versions, vec!["1.0.0", "2.0.0"]);
    assert!(parse_crate_versions(&lines("{\"vers\":\"1.0.0\"}\nx\n{\"vers\":\"2.0.0\"}")).is_err());
    assert!(parse_crate_versions(&Vec::new()).unwrap().is_empty());
}

#[test]
fn items_without_name_or_requirement_are_not_kept() {
    let doc = json::parse_json(
        r#"[{"name":"a","req":"^1"},{"name":"b"},{"req":"^2"},{"name":"c","req":"*","kind":"dev"},{"name":3,"req":"^1"}]"#,
    )
    .unwrap();
    let kept = extract_minimal_deps_json(Some(&doc));
    let items = kept.as_array().unwrap();
    assert_eq!(items.len(), 2);
    assert_eq!(text_at(&items[0], "name").as_deref(), Some("a"));
    assert_eq!(text_at(&items[0], "kind").as_deref(), Some("normal"));
    assert_eq!(text_at(&items[1], "name").as_deref(), Some("c"));
    assert_eq!(text_at(&items[1], "kind").as_deref(), Some("dev"));
    let again = extract_minimal_deps_json(Some(&kept));
    assert_eq!(format!("{:?}", again), format!("{:?}", kept));
}

#[test]
fn deps_that_are_no_list_are_kept_as_an_empty_list() {
    let doc = json::parse_json(r#"{"name":"a"}"#).unwrap();
    assert!(extract_minimal_deps_json(Some(&doc)).as_array().unwrap().is_empty());
    assert!(extract_minimal_deps_json(None).as_array().unwrap().is_empty());
}

#[test]
fn kept_dependencies_are_read_back() {
    let doc = json::parse_json(
        r#"{"vers":"1.0.0","deps":[{"name":"a","req":"^1","kind":"build"},{"name":"b","kind":"dev"},{"name":"","req":"^3"},{"name":"c","req":"^4","kind":"development"},{"name":"d","req":"^5"}]}"#,
    )
    .unwrap();
    let row = index_version_row(&doc).unwrap();
    let read = deps::collect_deps_by_kind_from_index_deps(&row.deps);
    assert_eq!(read.normal.len(), 1);
    assert_eq!(read.normal[0].name, "d");
    assert_eq!(read.build.len(), 1);
    assert_eq!(read.build[0].name, "a");
    assert_eq!(read.build[0].req, "^1");
    assert_eq!(read.dev.len(), 1);
    assert_eq!(read.dev[0].name, "c");
    assert_eq!(read.dev[0].dep_type, DepType::Dev);
}

#[test]
fn features2_is_kept_as_it_is() {
    let row = parse_index_version_line(r#"{"vers":"1.0.0","features2":{"x":[1,2.5,true,null,"y"]}}"#)
        .unwrap()
        .unwrap();
    let doc = row.features2.unwrap();
    let items = doc.get("x").unwrap().as_array().unwrap();
    assert!(matches!(&items[0], Json::Number(n) if n == "1"));
    assert!(matches!(&items[1], Json::Number(n) if n == "2.5"));
    assert!(matches!(items[2], Json::Bool(true)));
    assert!(matches!(items[3], Json::Null));
    assert!(matches!(&items[4], Json::Text(s) if s == "y"));
    assert!(row.pubtime.is_none());
}
