use tern::metadata::MetadataEntry;
use tern::profile::{flatten_list, parse_field, parse_list, Profile, ProfileRow};

fn strings(items: &[&str]) -> Vec<String> {
    items.iter().map(|s| s.to_string()).collect()
}

fn row(options: Option<&str>, ignore_patterns: Option<&str>) -> ProfileRow {
    ProfileRow {
        id: 7,
        engine: "pandoc".to_string(),
        source_root: "/in".to_string(),
        source_file_extension: "md".to_string(),
        output_root: "/out".to_string(),
        output_file_extension: "html".to_string(),
        options: options.map(|s| s.to_string()),
        ignore_patterns: ignore_patterns.map(|s| s.to_string()),
    }
}

#[test]
fn parse_list_of_empty_text_is_absent() {
    assert_eq!(parse_list(""), None);
}

#[test]
fn parse_list_reads_lines() {
    assert_eq!(parse_list("-s\n--toc"), Some(strings(&["-s", "--toc"])));
    assert_eq!(parse_list("drafts/**"), Some(strings(&["drafts/**"])));
    assert_eq!(parse_list("\n"), Some(strings(&[""])));
}

#[test]
fn parse_field_treats_absent_like_empty() {
    assert_eq!(parse_field(&None), None);
    assert_eq!(parse_field(&Some(String::new())), None);
    assert_eq!(parse_field(&Some("a\nb".to_string())), Some(strings(&["a", "b"])));
}

#[test]
fn flatten_list_writes_lines() {
    assert_eq!(flatten_list(&None), None);
    assert_eq!(flatten_list(&Some(strings(&["-s", "--toc"]))), Some("-s\n--toc".to_string()));
    assert_eq!(flatten_list(&Some(Vec::new())), Some(String::new()));
}

#[test]
fn new_profile_has_no_identity_and_no_metadata() {
    let p = Profile::new("pandoc", "/in", "md", "/out", "html", "-s\n--toc", "");
    assert_eq!(p.id, 0);
    assert_eq!(p.engine, "pandoc");
    assert_eq!(p.source_root, "/in");
    assert_eq!(p.source_file_extension, "md");
    assert_eq!(p.output_root, "/out");
    assert_eq!(p.output_file_extension, "html");
    assert_eq!(p.options, Some(strings(&["-s", "--toc"])));
    assert_eq!(p.ignore_patterns, None);
    assert!(p.metadata.is_none());
}

#[test]
fn from_row_reads_fields_and_lists() {
    let p = Profile::from_row(&row(Some("-s"), Some("drafts/**\n*.tmp.md")), &Vec::new());
    assert_eq!(p.id, 7);
    assert_eq!(p.engine, "pandoc");
    assert_eq!(p.source_root, "/in");
    assert_eq!(p.source_file_extension, "md");
    assert_eq!(p.output_root, "/out");
    assert_eq!(p.output_file_extension, "html");
    assert_eq!(p.options, Some(strings(&["-s"])));
    assert_eq!(p.ignore_patterns, Some(strings(&["drafts/**", "*.tmp.md"])));
    assert!(p.metadata.is_none());
}

#[test]
fn from_row_without_lists() {
    let p = Profile::from_row(&row(None, Some("")), &Vec::new());
    assert_eq!(p.options, None);
    assert_eq!(p.ignore_patterns, None);
}

#[test]
fn from_row_builds_metadata_from_its_rows() {
    let rows = vec![
        MetadataEntry { source_file: "/in/a.md".to_string(), mtime: 5 },
        MetadataEntry { source_file: "/in/b.md".to_string(), mtime: 6 },
    ];
    let p = Profile::from_row(&row(None, None), &rows);
    assert_eq!(p.tracked_mtime("/in/a.md"), Some(5));
    assert_eq!(p.tracked_mtime("/in/b.md"), Some(6));
    assert_eq!(p.tracked_mtime("/in/c.md"), None);
    assert_eq!(p.metadata.as_ref().map(|m| m.len()), Some(2));
}

#[test]
fn to_row_flattens_lists() {
    let mut p = Profile::new("pandoc", "/in", "md", "/out", "html", "-s\n--toc", "drafts/**");
    p.id = 3;
    let r = p.to_row();
    assert_eq!(r.id, 3);
    assert_eq!(r.engine, "pandoc");
    assert_eq!(r.source_root, "/in");
    assert_eq!(r.source_file_extension, "md");
    assert_eq!(r.output_root, "/out");
    assert_eq!(r.output_file_extension, "html");
    assert_eq!(r.options, Some("-s\n--toc".to_string()));
    assert_eq!(r.ignore_patterns, Some("drafts/**".to_string()));
}

#[test]
fn row_round_trip_keeps_a_profile() {
    let p = Profile::new("pandoc", "/in", "md", "/out", "html", "-s\n--toc", "drafts/**\nold/");
    let q = Profile::from_row(&p.to_row(), &Vec::new());
    assert_eq!(q.options, p.options);
    assert_eq!(q.ignore_patterns, p.ignore_patterns);
    assert_eq!(q.engine, p.engine);
}

#[test]
fn tracked_mtime_without_metadata_is_none() {
    let p = Profile::new("pandoc", "/in", "md", "/out", "html", "", "");
    assert_eq!(p.tracked_mtime("/in/a.md"), None);
}

#[test]
fn record_conversion_makes_then_renews_an_entry() {
    let mut p = Profile::new("pandoc", "/in", "md", "/out", "html", "", "");
    p.record_conversion("/in/a.md", 10);
    assert_eq!(p.tracked_mtime("/in/a.md"), Some(10));
    assert_eq!(p.metadata.as_ref().map(|m| m.len()), Some(1));
    p.record_conversion("/in/a.md", 20);
    assert_eq!(p.tracked_mtime("/in/a.md"), Some(20));
    assert_eq!(p.metadata.as_ref().map(|m| m.len()), Some(1));
    assert_eq!(p.engine, "pandoc");
    assert_eq!(p.id, 0);
}
