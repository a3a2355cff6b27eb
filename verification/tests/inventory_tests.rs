use favlist_core::csv_utils::CsvRow;
use favlist_core::inventory::{
    diff_new_entries, extract_bvid_from_row, extract_bvids, find_missing_videos,
    inventory_file_name, scan_directory_bvids, unique_matches, write_inventory_file, FileEntry,
    InventoryMap,
};

fn file(path: &str, name: &str) -> FileEntry {
    FileEntry { path: path.to_string(), name: name.to_string() }
}

fn row(cells: &[(&str, &str)]) -> CsvRow {
    let mut row = CsvRow::new();
    for (key, value) in cells {
        row.insert(key.to_string(), value.to_string());
    }
    row
}

fn ids(rows: &[CsvRow]) -> Vec<Option<String>> {
    rows.iter().map(extract_bvid_from_row).collect()
}

#[test]
fn identifiers_are_found_in_names() {
    assert_eq!(extract_bvids("foo_BV1xx41117xb_p1.mp4"), vec!["BV1xx41117xb"]);
    assert_eq!(extract_bvids("bar.mp4"), Vec::<String>::new());
    assert_eq!(extract_bvids("BV1xx41117x"), Vec::<String>::new());
    assert_eq!(extract_bvids("bv1xx41117xb"), Vec::<String>::new());
    assert_eq!(extract_bvids("BV1xx41117xbZZ"), vec!["BV1xx41117xb"]);
    assert_eq!(
        extract_bvids("BV1yy41117xy-BV1xx41117xb-BV1yy41117xy"),
        vec!["BV1yy41117xy", "BV1xx41117xb"]
    );
    assert_eq!(extract_bvids("BV1xx4111_7xb"), Vec::<String>::new());
    assert_eq!(extract_bvids("视频BV1xx41117xb标题"), vec!["BV1xx41117xb"]);
}

#[test]
fn matches_are_kept_once() {
    let found = vec!["b".to_string(), "a".to_string(), "b".to_string(), "c".to_string()];
    assert_eq!(unique_matches(found), vec!["b", "a", "c"]);
    assert_eq!(unique_matches(Vec::new()), Vec::<String>::new());
}

#[test]
fn scan_maps_identifier_to_files() {
    let files = vec![file("/dl/foo_BV1xx41117xb_p1.mp4", "foo_BV1xx41117xb_p1.mp4"), file(
        "/dl/bar.mp4",
        "bar.mp4",
    )];
    let map = scan_directory_bvids(&files);
    let keys = map.keys();
    assert_eq!(keys, vec!["BV1xx41117xb"]);
    let found = map.get("BV1xx41117xb").unwrap();
    assert_eq!(found.len(), 1);
    assert_eq!(found[0].path, "/dl/foo_BV1xx41117xb_p1.mp4");
    assert!(map.get("bar").is_none());
    assert!(!map.is_empty());
}

#[test]
fn scan_lists_a_file_under_each_of_its_identifiers() {
    let files = vec![
        file("/dl/a/BV1yy41117xy.mp4", "BV1yy41117xy.mp4"),
        file("/dl/BV1xx41117xb+BV1yy41117xy.mp4", "BV1xx41117xb+BV1yy41117xy.mp4"),
        file("/dl/b/BV1yy41117xy.BV1yy41117xy.nfo", "BV1yy41117xy.BV1yy41117xy.nfo"),
        file("/dl/readme.txt", "readme.txt"),
    ];
    let map = scan_directory_bvids(&files);
    assert_eq!(map.keys(), vec!["BV1yy41117xy", "BV1xx41117xb"]);
    let paths = |id: &str| -> Vec<String> {
        map.get(id).unwrap().iter().map(|f| f.path.clone()).collect()
    };
    assert_eq!(
        paths("BV1yy41117xy"),
        vec![
            "/dl/a/BV1yy41117xy.mp4",
            "/dl/BV1xx41117xb+BV1yy41117xy.mp4",
            "/dl/b/BV1yy41117xy.BV1yy41117xy.nfo"
        ]
    );
    assert_eq!(paths("BV1xx41117xb"), vec!["/dl/BV1xx41117xb+BV1yy41117xy.mp4"]);
    assert!(scan_directory_bvids(&Vec::new()).is_empty());
}

#[test]
fn listing_is_sorted_by_identifier() {
    let files = vec![
        file("/dl/z_BV1zz41117xb.mp4", "z_BV1zz41117xb.mp4"),
        file("/dl/BV1aa41117xb.mp4", "BV1aa41117xb.mp4"),
        file("/dl/BV1aa41117xb.bin", "BV1aa41117xb\u{fffd}.bin"),
        file("/dl/BV1Zz41117xb.mp4", "BV1Zz41117xb.mp4"),
        file("/dl/sub/BV1aa41117xb.ass", "BV1aa41117xb.ass"),
    ];
    let map = scan_directory_bvids(&files);
    assert_eq!(
        write_inventory_file(&map),
        "BV1Zz41117xb\tBV1Zz41117xb.mp4\n\
         BV1aa41117xb\tBV1aa41117xb.mp4\n\
         BV1aa41117xb\tBV1aa41117xb\u{fffd}.bin\n\
         BV1aa41117xb\tBV1aa41117xb.ass\n\
         BV1zz41117xb\tz_BV1zz41117xb.mp4\n"
    );
    assert_eq!(write_inventory_file(&InventoryMap::new()), "");
    assert_eq!(inventory_file_name(), "existing_videos.txt");
}

#[test]
fn inventory_entries_add_up() {
    let mut map = InventoryMap::new();
    map.add_file("b".to_string(), file("/1", "1"));
    map.add_file("a".to_string(), file("/2", "2"));
    map.add_file("b".to_string(), file("/3", "3"));
    assert_eq!(map.keys(), vec!["b", "a"]);
    let names: Vec<&str> = map.get("b").unwrap().iter().map(|f| f.name.as_str()).collect();
    assert_eq!(names, vec!["1", "3"]);
    assert_eq!(map.get("a").unwrap().len(), 1);
}

#[test]
fn row_identifier_comes_from_the_first_column_that_has_one() {
    assert_eq!(extract_bvid_from_row(&row(&[("bv_id", " BV1 ")])), Some("BV1".to_string()));
    assert_eq!(
        extract_bvid_from_row(&row(&[("bv_id", "  "), ("BV号", "BV2"), ("视频BV号", "BV3")])),
        Some("BV2".to_string())
    );
    assert_eq!(
        extract_bvid_from_row(&row(&[("视频BV号", "BV3"), ("title", "t")])),
        Some("BV3".to_string())
    );
    assert_eq!(extract_bvid_from_row(&row(&[("title", "t")])), None);
    assert_eq!(extract_bvid_from_row(&row(&[("bv_id", "")])), None);
}

#[test]
fn diff_of_a_ledger_with_itself_is_empty() {
    let rows = vec![
        row(&[("bv_id", "BV1")]),
        row(&[("title", "no id")]),
        row(&[("BV号", "BV2")]),
        row(&[("bv_id", "BV1")]),
    ];
    assert!(diff_new_entries(&rows, &rows).is_empty());
    assert!(diff_new_entries(&Vec::new(), &Vec::new()).is_empty());
}

#[test]
fn diff_keeps_the_rows_that_the_old_ledger_lacks() {
    let old = vec![row(&[("bv_id", "BV1")]), row(&[("BV号", " BV2 ")])];
    let new = vec![
        row(&[("bv_id", "BV3"), ("title", "three")]),
        row(&[("bv_id", "BV2")]),
        row(&[("title", "no id")]),
        row(&[("视频BV号", "BV4")]),
        row(&[("bv_id", "BV1")]),
        row(&[("bv_id", "BV3"), ("title", "again")]),
    ];
    let diff = diff_new_entries(&old, &new);
    assert_eq!(
        ids(&diff),
        vec![Some("BV3".to_string()), Some("BV4".to_string()), Some("BV3".to_string())]
    );
    assert_eq!(diff[0].get("title").unwrap(), "three");
    assert_eq!(diff[2].get("title").unwrap(), "again");
    let all = diff_new_entries(&Vec::new(), &new);
    assert_eq!(all.len(), 5);
}

#[test]
fn missing_videos_are_those_not_in_the_directory() {
    let ledger = vec![
        row(&[("bv_id", "BV1")]),
        row(&[("bv_id", "BV2")]),
        row(&[("title", "no id")]),
        row(&[("bv_id", "bv1")]),
    ];
    let there = vec!["BV1".to_string(), "BV9".to_string()];
    let missing = find_missing_videos(&ledger, &there);
    assert_eq!(ids(&missing), vec![Some("BV2".to_string()), Some("bv1".to_string())]);
    assert_eq!(find_missing_videos(&ledger, &Vec::new()).len(), 3);
    assert!(find_missing_videos(&Vec::new(), &there).is_empty());
}
