use std::collections::HashMap;

use share_indexer::acl::AceKind;
use share_indexer::record::{file_extension, DirItem, EntryFacts, EntryType, ResourceEntry};
use share_indexer::walker::{Action, Phase, Walker};

#[derive(Clone)]
struct Fake {
    is_dir: bool,
    size: u64,
    meta_ok: bool,
    list_ok: bool,
    children: Vec<String>,
    descriptor: Option<Vec<u8>>,
    created: Option<i64>,
}

fn dir(children: &[&str]) -> Fake {
    Fake {
        is_dir: true,
        size: 0,
        meta_ok: true,
        list_ok: true,
        children: children.iter().map(|c| c.to_string()).collect(),
        descriptor: None,
        created: None,
    }
}

fn file(size: u64) -> Fake {
    Fake {
        is_dir: false,
        size,
        meta_ok: true,
        list_ok: false,
        children: Vec::new(),
        descriptor: None,
        created: None,
    }
}

fn facts(f: Option<&Fake>) -> Option<EntryFacts> {
    match f {
        Some(f) if f.meta_ok => Some(EntryFacts {
            size: f.size,
            is_dir: f.is_dir,
            created: f.created,
            modified: None,
            descriptor: f.descriptor.clone(),
        }),
        _ => None,
    }
}

struct Run {
    records: Vec<ResourceEntry>,
    total: usize,
    listed: Vec<String>,
}

fn run(fs: &HashMap<String, Fake>, root: &str, max_depth: usize, max_entries: Option<usize>) -> Run {
    let mut w = Walker::new(root.to_string(), max_depth, max_entries);
    assert_eq!(w.phase(), Phase::Root);
    let mut records = Vec::new();
    let mut listed = Vec::new();
    let (rec, mut action) = w.root_inspected(facts(fs.get(root)));
    records.extend(rec);
    loop {
        match action {
            Action::List { path } => {
                listed.push(path.clone());
                let items = match fs.get(&path) {
                    Some(f) if f.list_ok => Some(
                        f.children
                            .iter()
                            .map(|name| {
                                let full_path = format!("{}\\{}", path, name);
                                let is_dir = fs.get(&full_path).map(|c| c.is_dir).unwrap_or(false);
                                DirItem { name: name.clone(), full_path, is_dir }
                            })
                            .collect(),
                    ),
                    _ => None,
                };
                action = w.listed(items);
            }
            Action::Inspect { path } => {
                let (rec, next) = w.inspected(facts(fs.get(&path)));
                records.extend(rec);
                action = next;
            }
            Action::Finished { total } => {
                assert_eq!(w.phase(), Phase::Finished);
                return Run { records, total, listed };
            }
        }
    }
}

fn admin_descriptor() -> Vec<u8> {
    let mut sid = vec![1u8, 5, 0, 0, 0, 0, 0, 5];
    for s in [21u32, 1, 2, 3, 500] {
        sid.extend_from_slice(&s.to_le_bytes());
    }
    let mut ace = vec![0u8, 0];
    ace.extend_from_slice(&((8 + sid.len()) as u16).to_le_bytes());
    ace.extend_from_slice(&0x1f01ffu32.to_le_bytes());
    ace.extend_from_slice(&sid);
    let mut d = vec![1u8, 0, 0x04, 0x80];
    d.extend_from_slice(&[0u8; 12]);
    d.extend_from_slice(&20u32.to_le_bytes());
    d.extend_from_slice(&[2, 0]);
    d.extend_from_slice(&((8 + ace.len()) as u16).to_le_bytes());
    d.extend_from_slice(&1u16.to_le_bytes());
    d.extend_from_slice(&[0, 0]);
    d.extend_from_slice(&ace);
    d
}

/// Levels below the share root of a record's path.
fn level(root: &str, path: &str) -> usize {
    path[root.len()..].matches('\\').count()
}

fn deep_tree() -> HashMap<String, Fake> {
    let mut fs = HashMap::new();
    fs.insert(r"\\H\S".to_string(), dir(&["d1", "f0"]));
    fs.insert(r"\\H\S\f0".to_string(), file(1));
    fs.insert(r"\\H\S\d1".to_string(), dir(&["d2", "f1"]));
    fs.insert(r"\\H\S\d1\f1".to_string(), file(1));
    fs.insert(r"\\H\S\d1\d2".to_string(), dir(&["d3", "f2"]));
    fs.insert(r"\\H\S\d1\d2\f2".to_string(), file(1));
    fs.insert(r"\\H\S\d1\d2\d3".to_string(), dir(&["f3"]));
    fs.insert(r"\\H\S\d1\d2\d3\f3".to_string(), file(1));
    fs
}

fn wide_tree(n: usize) -> HashMap<String, Fake> {
    let mut fs = HashMap::new();
    let names: Vec<String> = (0..n).map(|i| format!("f{}", i)).collect();
    let refs: Vec<&str> = names.iter().map(|s| s.as_str()).collect();
    let mut root = dir(&refs);
    root.children.push("sub".to_string());
    fs.insert(r"\\H\W".to_string(), root);
    for name in &names {
        fs.insert(format!("\\\\H\\W\\{}", name), file(5));
    }
    fs.insert(r"\\H\W\sub".to_string(), dir(&["x", "y"]));
    fs.insert(r"\\H\W\sub\x".to_string(), file(1));
    fs.insert(r"\\H\W\sub\y".to_string(), file(1));
    fs
}

#[test]
fn share_with_file_and_subdirectory() {
    let mut fs = HashMap::new();
    fs.insert(r"\\HOST\Data".to_string(), dir(&["a.txt", "sub"]));
    let mut a = file(10);
    a.descriptor = Some(admin_descriptor());
    fs.insert(r"\\HOST\Data\a.txt".to_string(), a);
    fs.insert(r"\\HOST\Data\sub".to_string(), dir(&[]));
    let r = run(&fs, r"\\HOST\Data", 1, None);
    assert_eq!(r.total, 3);
    assert_eq!(r.records.len(), 3);
    let root = &r.records[0];
    assert_eq!(root.entry_type, EntryType::Share);
    assert_eq!(root.entry_type.as_text(), "share");
    assert_eq!(root.name, r"\\HOST\Data");
    assert_eq!(root.full_path, r"\\HOST\Data");
    assert_eq!(root.size, None);
    let f = &r.records[1];
    assert_eq!(f.entry_type, EntryType::File);
    assert_eq!(f.name, "a.txt");
    assert_eq!(f.full_path, r"\\HOST\Data\a.txt");
    assert_eq!(f.size, Some(10));
    assert_eq!(f.extension, Some("txt".to_string()));
    let acls = f.acls.as_ref().unwrap();
    assert_eq!(acls.len(), 1);
    assert_eq!(acls[0].identity, "S-1-5-21-1-2-3-500");
    assert_eq!(acls[0].ace_type, AceKind::Allowed);
    assert_eq!(acls[0].access_mask, 0x1f01ff);
    assert_eq!(acls[0].permissions, vec!["FullControl".to_string()]);
    let d = &r.records[2];
    assert_eq!(d.entry_type, EntryType::Directory);
    assert_eq!(d.entry_type.as_text(), "directory");
    assert_eq!(d.name, "sub");
    assert_eq!(d.size, None);
    assert_eq!(d.extension, None);
    assert_eq!(r.listed, vec![r"\\HOST\Data".to_string(), r"\\HOST\Data\sub".to_string()]);
}

#[test]
fn depth_limit_bounds_record_levels() {
    let fs = deep_tree();
    for d in 0..4usize {
        let r = run(&fs, r"\\H\S", d, None);
        assert_eq!(r.records[0].entry_type, EntryType::Share);
        for rec in &r.records {
            assert!(level(r"\\H\S", &rec.full_path) <= d + 1);
        }
        for path in &r.listed {
            assert!(level(r"\\H\S", path) <= d);
        }
        assert_eq!(r.total, r.records.len());
    }
    assert_eq!(run(&fs, r"\\H\S", 0, None).records.len(), 3);
    assert_eq!(run(&fs, r"\\H\S", 1, None).records.len(), 5);
    assert_eq!(run(&fs, r"\\H\S", 3, None).records.len(), 8);
}

#[test]
fn quota_bounds_records_below_root() {
    let fs = wide_tree(10);
    for m in 0..15usize {
        let r = run(&fs, r"\\H\W", 5, Some(m));
        assert!(r.records.len() - 1 <= m);
        assert_eq!(r.total, r.records.len());
    }
    let r = run(&fs, r"\\H\W", 5, Some(4));
    assert_eq!(r.total, 4);
    assert_eq!(run(&fs, r"\\H\W", 5, None).total, 14);
}

#[test]
fn quota_is_shared_with_subdirectories() {
    let fs = wide_tree(0);
    let r = run(&fs, r"\\H\W", 5, Some(3));
    assert_eq!(r.records.len(), 3);
    assert_eq!(r.records[1].name, "sub");
    assert_eq!(r.records[2].name, "x");
}

#[test]
fn zero_quota_emits_only_the_root() {
    let fs = wide_tree(10);
    let r = run(&fs, r"\\H\W", 5, Some(0));
    assert_eq!(r.records.len(), 1);
    assert_eq!(r.records[0].entry_type, EntryType::Share);
    assert_eq!(r.total, 1);
    assert!(r.listed.is_empty());
}

#[test]
fn unreadable_directory_does_not_stop_siblings() {
    let mut fs = HashMap::new();
    fs.insert(r"\\H\S".to_string(), dir(&["a", "b", "c.txt"]));
    let mut a = dir(&["hidden"]);
    a.list_ok = false;
    fs.insert(r"\\H\S\a".to_string(), a);
    fs.insert(r"\\H\S\a\hidden".to_string(), file(1));
    fs.insert(r"\\H\S\b".to_string(), dir(&["inner"]));
    fs.insert(r"\\H\S\b\inner".to_string(), file(1));
    fs.insert(r"\\H\S\c.txt".to_string(), file(1));
    let r = run(&fs, r"\\H\S", 3, None);
    let names: Vec<&str> = r.records.iter().map(|e| e.name.as_str()).collect();
    assert_eq!(names, vec![r"\\H\S", "a", "b", "inner", "c.txt"]);
    assert_eq!(r.total, 5);
}

#[test]
fn unreadable_metadata_skips_only_that_entry() {
    let mut fs = HashMap::new();
    fs.insert(r"\\H\S".to_string(), dir(&["x", "d"]));
    let mut x = file(3);
    x.meta_ok = false;
    fs.insert(r"\\H\S\x".to_string(), x);
    let mut d = dir(&["y"]);
    d.meta_ok = false;
    fs.insert(r"\\H\S\d".to_string(), d);
    fs.insert(r"\\H\S\d\y".to_string(), file(1));
    let r = run(&fs, r"\\H\S", 3, None);
    let names: Vec<&str> = r.records.iter().map(|e| e.name.as_str()).collect();
    assert_eq!(names, vec![r"\\H\S", "y"]);
    assert_eq!(r.total, 2);
}

#[test]
fn unreadable_root_still_lists() {
    let mut fs = HashMap::new();
    let mut root = dir(&["f"]);
    root.meta_ok = false;
    fs.insert(r"\\H\S".to_string(), root);
    fs.insert(r"\\H\S\f".to_string(), file(1));
    let r = run(&fs, r"\\H\S", 0, None);
    assert_eq!(r.records.len(), 1);
    assert_eq!(r.records[0].name, "f");
    assert_eq!(r.total, 1);
}

#[test]
fn missing_descriptor_gives_empty_acls() {
    let mut fs = HashMap::new();
    fs.insert(r"\\H\S".to_string(), dir(&[]));
    let r = run(&fs, r"\\H\S", 0, None);
    assert_eq!(r.records[0].acls.as_ref().map(|a| a.len()), Some(0));
}

#[test]
fn malformed_descriptor_gives_no_acls() {
    let mut fs = HashMap::new();
    let mut root = dir(&[]);
    root.descriptor = Some(vec![1, 2, 3]);
    fs.insert(r"\\H\S".to_string(), root);
    let r = run(&fs, r"\\H\S", 0, None);
    assert!(r.records[0].acls.is_none());
}

#[test]
fn timestamps_are_written_in_utc() {
    let mut fs = HashMap::new();
    let mut root = dir(&["f"]);
    root.created = Some(0);
    fs.insert(r"\\H\S".to_string(), root);
    let mut f = file(1);
    f.created = Some(1_700_000_000);
    fs.insert(r"\\H\S\f".to_string(), f);
    let r = run(&fs, r"\\H\S", 0, None);
    assert_eq!(r.records[0].created, Some("1970-01-01 00:00:00 UTC".to_string()));
    assert_eq!(r.records[0].modified, None);
    assert_eq!(r.records[1].created, Some("2023-11-14 22:13:20 UTC".to_string()));
}

#[test]
fn out_of_range_timestamp_is_left_out() {
    let mut fs = HashMap::new();
    let mut root = dir(&[]);
    root.created = Some(i64::MAX);
    fs.insert(r"\\H\S".to_string(), root);
    let r = run(&fs, r"\\H\S", 0, None);
    assert_eq!(r.records[0].created, None);
}

#[test]
fn extensions_are_lower_cased_for_files_only() {
    let mut fs = HashMap::new();
    fs.insert(r"\\H\S".to_string(), dir(&["Report.PDF", ".bashrc", "x.d", "noext"]));
    fs.insert(r"\\H\S\Report.PDF".to_string(), file(1));
    fs.insert(r"\\H\S\.bashrc".to_string(), file(1));
    fs.insert(r"\\H\S\x.d".to_string(), dir(&[]));
    fs.insert(r"\\H\S\noext".to_string(), file(1));
    let r = run(&fs, r"\\H\S", 0, None);
    assert_eq!(r.records[1].extension, Some("pdf".to_string()));
    assert_eq!(r.records[2].extension, None);
    assert_eq!(r.records[3].extension, None);
    assert_eq!(r.records[4].extension, None);
}

#[test]
fn extension_of_leaf_names() {
    assert_eq!(file_extension("a.tar.GZ"), Some("GZ".to_string()));
    assert_eq!(file_extension("a."), Some(String::new()));
    assert_eq!(file_extension(".hidden"), None);
    assert_eq!(file_extension("plain"), None);
    assert_eq!(file_extension(""), None);
}
