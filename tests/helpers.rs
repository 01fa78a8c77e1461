use share_indexer::credz::{
    dedup_search_strings, highlight_search_strings, html_escape, render_report, replace_all, search_lines,
};
use share_indexer::importer::{
    batch_count, batch_range, domain_files, get_import_query_for_mode, import_source, is_import_mode, is_jsonl_path,
    ImportSource,
};
use share_indexer::queries::{QueriesConfig, Query};
use share_indexer::shares::{share_paths, should_skip_share, split_targets, unc_path, Config, IndexConfig};
use share_indexer::text::{decimal_string, nonblank_lines, split_at_char, text_contains, trim_lines};

#[test]
fn admin_shares_are_skipped_in_any_case() {
    assert!(should_skip_share("ADMIN$"));
    assert!(should_skip_share("ipc$"));
    assert!(should_skip_share("Print$"));
    assert!(!should_skip_share("C$"));
    assert!(!should_skip_share("Public"));
    assert!(!should_skip_share("admin"));
}

#[test]
fn unc_path_of_share() {
    assert_eq!(unc_path("HOST", "Data"), r"\\HOST\Data");
}

#[test]
fn config_from_front_end_settings() {
    let c = Config::from_index_config(
        IndexConfig {
            targets: "a,b".to_string(),
            max_depth: 3,
            max_entries: Some(7),
            debug_mode: true,
            share_enum_only: false,
            shares_file: None,
        },
        "out.jsonl".to_string(),
    );
    assert_eq!(c.target_or_file, "a,b");
    assert_eq!(c.max_depth, 3);
    assert_eq!(c.output_path, "out.jsonl");
    assert_eq!(c.max_entries, Some(7));
    assert!(c.debug_mode);
    assert!(!c.share_enum_only);
    assert_eq!(c.shares_file, None);
}

#[test]
fn decimal_rendering() {
    assert_eq!(decimal_string(0), "0");
    assert_eq!(decimal_string(7), "7");
    assert_eq!(decimal_string(1234567890), "1234567890");
    assert_eq!(decimal_string(u64::MAX), u64::MAX.to_string());
}

#[test]
fn html_escaping() {
    assert_eq!(html_escape(r#"<a href="x">Tom & 'J'</a>"#), "&lt;a href=&quot;x&quot;&gt;Tom &amp; &#39;J&#39;&lt;/a&gt;");
    assert_eq!(html_escape(""), "");
    assert_eq!(html_escape("plain é"), "plain é");
}

#[test]
fn replacing_occurrences() {
    assert_eq!(replace_all("aaa", "aa", "b"), "ba");
    assert_eq!(replace_all("abcabc", "bc", "X"), "aXaX");
    assert_eq!(replace_all("abc", "", "-"), "-a-b-c-");
    assert_eq!(replace_all("abc", "zz", "-"), "abc");
}

#[test]
fn highlighting_search_strings() {
    let strings = vec!["password".to_string(), "<b>".to_string()];
    assert_eq!(
        highlight_search_strings("my password is <b>", &strings),
        "my <span class=\"highlight\">password</span> is <span class=\"highlight\">&lt;b&gt;</span>"
    );
    assert_eq!(highlight_search_strings("nothing", &strings), "nothing");
}

#[test]
fn import_queries_by_mode() {
    assert_eq!(get_import_query_for_mode("unknown", false), "Error: Unknown mode");
    assert!(get_import_query_for_mode("users", false).contains("SET i:User"));
    assert!(get_import_query_for_mode("groups", true).contains("MEMBER_OF"));
    assert!(get_import_query_for_mode("shares", true).contains("CREATE (entry { full_path: item.full_path })"));
    assert!(get_import_query_for_mode("shares", false).contains("OPTIONAL MATCH (existing)"));
    assert!(get_import_query_for_mode("computers", false).contains("CREATE (n:Computer"));
}

#[test]
fn default_queries() {
    let c = QueriesConfig::default();
    assert_eq!(c.predefined.len(), 12);
    assert_eq!(c.predefined[0].name, "Search Password Files");
    assert_eq!(c.identity.len(), 4);
    assert_eq!(c.identity[3].name, "Show associated Identities");
    assert!(c.user.is_empty());
}

#[test]
fn user_queries_are_added_and_removed() {
    let mut c = QueriesConfig::default();
    c.add_user_query("a".to_string(), "MATCH (n) RETURN n".to_string());
    c.add_user_query("b".to_string(), "RETURN 1".to_string());
    assert_eq!(c.user.len(), 2);
    assert!(!c.delete_user_query(5));
    assert_eq!(c.user.len(), 2);
    assert!(c.delete_user_query(0));
    assert_eq!(c.user.len(), 1);
    let q: &Query = &c.user[0];
    assert_eq!(q.name, "b");
    assert_eq!(q.cypher, "RETURN 1");
}

#[test]
fn search_hits_carry_their_context() {
    let lines = vec!["first".to_string(), "pass=1".to_string(), "last".to_string(), "pass=2".to_string()];
    let hits = search_lines(&lines, &vec!["pass".to_string()]);
    assert_eq!(hits.len(), 2);
    assert_eq!(
        hits[0],
        "<div class=\"line line-before\"><span class=\"line-number\">1</span>first</div>\
<div class=\"line line-hit\"><span class=\"line-number\">2</span><span class=\"highlight\">pass</span>=1 <span class=\"hit-marker\"></span></div>\
<div class=\"line line-after\"><span class=\"line-number\">3</span>last</div>"
    );
    assert_eq!(
        hits[1],
        "<div class=\"line line-before\"><span class=\"line-number\">3</span>last</div>\
<div class=\"line line-hit\"><span class=\"line-number\">4</span><span class=\"highlight\">pass</span>=2 <span class=\"hit-marker\"></span></div>"
    );
    assert!(search_lines(&lines, &vec!["zzz".to_string()]).is_empty());
}

#[test]
fn containment_of_text() {
    assert!(text_contains("abcdef", "cde"));
    assert!(text_contains("abc", ""));
    assert!(text_contains("abc", "abc"));
    assert!(!text_contains("abc", "abcd"));
    assert!(!text_contains("abc", "ac"));
}

#[test]
fn repeated_search_strings_are_dropped() {
    let v = vec!["b".to_string(), "a".to_string(), "b".to_string(), "c".to_string(), "a".to_string()];
    assert_eq!(dedup_search_strings(v), vec!["b".to_string(), "a".to_string(), "c".to_string()]);
    assert!(dedup_search_strings(Vec::new()).is_empty());
}

#[test]
fn report_is_filled_in() {
    let results = vec![("C:\\a&b.txt".to_string(), vec!["<hit1>".to_string(), "<hit2>".to_string()])];
    let page = render_report(&results, &["pass".to_string(), "key".to_string()], 7, 1, "2024-01-02 03:04:05 UTC");
    assert!(page.starts_with("<!DOCTYPE html>"));
    assert!(page.contains("<p><strong>Total files processed:</strong> 7</p>"));
    assert!(page.contains("<p><strong>Files with hits:</strong> 1</p>"));
    assert!(page.contains("<p><strong>Search strings:</strong> pass, key</p>"));
    assert!(page.contains("<p><strong>Generated:</strong> 2024-01-02 03:04:05 UTC</p>"));
    assert!(page.contains(
        "<div class=\"file-entry\">\n    <details open>\n      <summary class=\"file-header\">C:\\a&amp;b.txt</summary>\n                <div class=\"file-content\"><hit1><hit2></div></details></div>"
    ));
    assert!(!page.contains("{{"));
}

#[test]
fn walked_shares_of_a_host() {
    let shares = vec!["ADMIN$".to_string(), "Data".to_string(), "IPC$".to_string(), "C$".to_string(), "print$".to_string()];
    assert_eq!(share_paths("srv", &shares), vec![r"\\srv\Data".to_string(), r"\\srv\C$".to_string()]);
    assert!(share_paths("srv", &[]).is_empty());
}

#[test]
fn jsonl_paths_in_any_case() {
    assert!(is_jsonl_path("out/indexed.JSONL"));
    assert!(is_jsonl_path(".jsonl"));
    assert!(!is_jsonl_path("a.json"));
    assert!(!is_jsonl_path("jsonl"));
}

#[test]
fn comma_separated_targets() {
    assert_eq!(
        split_targets(" a , b,,c ,"),
        vec!["a".to_string(), "b".to_string(), "c".to_string()]
    );
    assert!(split_targets(" , ").is_empty());
    assert_eq!(split_targets("host"), vec!["host".to_string()]);
}

#[test]
fn cutting_at_a_character() {
    assert_eq!(split_at_char("a,,b,", ','), vec!["a".to_string(), String::new(), "b".to_string(), String::new()]);
    assert_eq!(split_at_char("", ','), vec![String::new()]);
}

#[test]
fn blank_lines_are_dropped() {
    let lines = vec!["  x ".to_string(), "   ".to_string(), String::new(), "\ty".to_string()];
    assert_eq!(trim_lines(&lines), vec!["x".to_string(), "y".to_string()]);
    assert_eq!(nonblank_lines(lines), vec!["  x ".to_string(), "\ty".to_string()]);
}

#[test]
fn import_modes_and_sources() {
    assert!(is_import_mode("domain"));
    assert!(is_import_mode("shares"));
    assert!(!is_import_mode("Shares"));
    assert_eq!(import_source("x/Indexed.JSONL", "shares"), ImportSource::Jsonl);
    assert_eq!(import_source("dump.ZIP", "domain"), ImportSource::DomainArchive);
    assert_eq!(import_source("dump.zip", "users"), ImportSource::Unsupported);
    assert_eq!(import_source("a.json", "users"), ImportSource::Unsupported);
}

#[test]
fn batches_cover_all_records() {
    assert_eq!(batch_count(0, 10), 0);
    assert_eq!(batch_count(10, 10), 1);
    assert_eq!(batch_count(11, 10), 2);
    assert_eq!(batch_count(usize::MAX, 2), usize::MAX / 2 + 1);
    assert_eq!(batch_range(25, 10, 0), (0, 10));
    assert_eq!(batch_range(25, 10, 2), (20, 25));
}

#[test]
fn archive_files_by_kind() {
    let names = vec![
        "users_1.jsonl".to_string(),
        "computers_1.jsonl".to_string(),
        "notes.txt".to_string(),
        "users_2.jsonl".to_string(),
    ];
    assert_eq!(domain_files(&names), (Some(1), Some(3), None));
}
