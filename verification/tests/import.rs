use crates_io::config::Config;
use crates_io::import::{
    import_row, missing_file_error, missing_import_file, CrateImportRow, ImportFile, Importer,
    IMPORT_BATCH_SIZE,
};
use crates_io::latest::{collect_latest, find_columns, load_latest_versions, LatestError};
use crates_io::times::Timestamp;

const NOW: Timestamp = Timestamp { secs: 1_800_000_000, nanos: 5 };

fn known(pairs: &[(&str, &str)]) -> Config {
    Config::from_vars(pairs.iter().map(|(k, v)| (k.to_string(), v.to_string())).collect())
}

fn row(line: &str, pairs: &[(&str, &str)]) -> Option<CrateImportRow> {
    import_row(line, NOW, &known(pairs).env)
}

fn strings(parts: &[&str]) -> Vec<String> {
    parts.iter().map(|p| p.to_string()).collect()
}

#[test]
fn line_gives_the_row_of_its_crate() {
    let line = " \"12\"\t\"serde\"\t\"16/01/2026 12:53:12.-1f+00\"\t\"15/01/2026 12:53:12.-1f+00\"\tmore ";
    let got = row(line, &[("serde", "1.0.2")]).unwrap();
    assert_eq!(got.id, 12);
    assert_eq!(got.name, "serde");
    assert_eq!(got.homepage.as_deref(), Some("https://static.crates.io/crates/serde"));
    assert_eq!(got.version_new, "1.0.2");
    assert_eq!(got.created_at, Timestamp { secs: 1768481592, nanos: 0 });
    assert_eq!(got.updated_at, Timestamp { secs: 1768481592 + 86400, nanos: 0 });
    assert_eq!(got.clone().name, got.name);
    assert!(!got.analyzed && !got.download && !got.download_failed && !got.version_handled);
}

#[test]
fn missing_times_fall_back() {
    let got = row("1\ta\tx\ty", &[("a", "1.0.0")]).unwrap();
    assert_eq!(got.created_at, NOW);
    assert_eq!(got.updated_at, NOW);
    let got = row("1\ta\tx\t15/01/2026 12:53:12+00", &[("a", "1.0.0")]).unwrap();
    assert_eq!(got.created_at.secs, 1768481592);
    assert_eq!(got.updated_at.secs, 1768481592);
}

#[test]
fn unusable_lines_give_no_row() {
    let versions = [("a", "1.0.0"), ("e", "")];
    assert!(row("", &versions).is_none());
    assert!(row(" \t \t ", &versions).is_none());
    assert!(row("1\ta\tx", &versions).is_none());
    assert!(row("one\ta\tx\ty", &versions).is_none());
    assert!(row("3000000000\ta\tx\ty", &versions).is_none());
    assert!(row("1\tb\tx\ty", &versions).is_none());
    assert!(row("1\te\tx\ty", &versions).is_none());
}

#[test]
fn rows_come_in_full_batches_and_a_rest() {
    let mut importer = Importer::new(known(&[("a", "1.0.0")]).env);
    assert!(importer.read_line("0\ta\tx\ty", NOW).is_none());
    let mut stored: Vec<i32> = Vec::new();
    for id in 1..=4500 {
        if let Some(rows) = importer.read_line(&format!("{}\ta\tx\ty", id), NOW) {
            assert_eq!(rows.len(), IMPORT_BATCH_SIZE);
            stored.extend(rows.iter().map(|row| row.id));
        }
        assert!(importer.read_line("", NOW).is_none());
    }
    assert_eq!(stored.len(), 4000);
    let rest = importer.finish().unwrap();
    assert_eq!(rest.len(), 500);
    stored.extend(rest.iter().map(|row| row.id));
    assert_eq!(stored, (1..=4500).collect::<Vec<i32>>());
}

#[test]
fn nothing_is_left_of_an_empty_list() {
    let mut importer = Importer::new(known(&[("a", "1.0.0")]).env);
    assert!(importer.read_line("1\ta\tx\ty", NOW).is_none());
    assert!(importer.finish().is_none());
}

#[test]
fn import_files_are_missed_in_order() {
    assert_eq!(missing_import_file(true, true), None);
    assert_eq!(missing_import_file(false, false), Some(ImportFile::Data));
    assert_eq!(missing_import_file(true, false), Some(ImportFile::Crates));
    assert_eq!(ImportFile::Data.rel_path().join("/"), "datahandle/data_import/data.txt");
    assert_eq!(ImportFile::Crates.rel_path().join("/"), "datahandle/data_import/crates.txt");
    assert_eq!(missing_file_error("/x/data.txt"), "Missing file: /x/data.txt");
}

#[test]
fn latest_versions_are_read_from_csv() {
    let data = "id,crate_version,crate_name\n1, 1.0.0 ,serde\n2,2.0.0,serde\n3,,log\n4,3.0.0,\n5,\"0,4\",\" log \"\n";
    let latest = load_latest_versions(data.as_bytes()).unwrap();
    assert_eq!(latest.len(), 2);
    assert_eq!(latest.get("serde").unwrap(), "1.0.0");
    assert_eq!(latest.get("log").unwrap(), "0,4");
}

#[test]
fn missing_columns_are_reported() {
    let name = load_latest_versions(b"a,b\n1,2\n").err().unwrap();
    assert!(matches!(name, LatestError::MissingColumn("crate_name")));
    assert_eq!(name.message().as_deref(), Some("missing column crate_name in data.txt"));
    let version = load_latest_versions(b"crate_name,b\n1\n").err().unwrap();
    assert!(matches!(version, LatestError::MissingColumn("crate_version")));
    let empty = load_latest_versions(b"").err().unwrap();
    assert!(matches!(empty, LatestError::MissingColumn("crate_name")));
}

#[test]
fn csv_errors_are_reported() {
    let uneven = load_latest_versions(b"crate_name,crate_version\na\n").err().unwrap();
    assert!(matches!(uneven, LatestError::Csv(_)));
    assert!(uneven.message().is_none());
    let header = load_latest_versions(b"crate_name,\xff\na,b\n").err().unwrap();
    assert!(matches!(header, LatestError::Csv(_)));
    let later = load_latest_versions(b"crate_name,crate_version\na,\xff\n").err().unwrap();
    assert!(matches!(later, LatestError::Csv(_)));
}

#[test]
fn first_column_and_first_row_count() {
    let at = find_columns(&strings(&["x", "crate_version", "crate_name", "crate_name"])).unwrap();
    assert_eq!(at, (2, 1));
    let rows = vec![
        strings(&["a"]),
        strings(&["a", "1"]),
        strings(&["a", "2"]),
        strings(&["", "3"]),
        strings(&["b", " "]),
    ];
    let latest = collect_latest(&rows, 0, 1);
    assert_eq!(latest.len(), 1);
    assert_eq!(latest.get("a").unwrap(), "1");
}
