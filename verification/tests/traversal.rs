use tern::profile::Profile;
use tern::traversal::{
    accepts, admits, candidates, is_rule, walk, IgnoreRules, PatternError, WalkEntry,
};

fn strings(items: &[&str]) -> Vec<String> {
    items.iter().map(|s| s.to_string()).collect()
}

fn file(path: &str) -> WalkEntry {
    WalkEntry { path: path.to_string(), is_file: true }
}

fn dir(path: &str) -> WalkEntry {
    WalkEntry { path: path.to_string(), is_file: false }
}

fn profile(ignore: &str) -> Profile {
    Profile::new("pandoc", "/in", "md", "/out", "html", "", ignore)
}

fn rules(root: &str, patterns: &[&str]) -> IgnoreRules {
    match IgnoreRules::compile(root, &strings(patterns)) {
        Ok(rules) => rules,
        Err(_) => panic!("patterns are globs"),
    }
}

#[test]
fn no_patterns_exclude_nothing() {
    let r = rules("/in", &[]);
    assert!(r.overrides().is_none());
    assert!(!r.excludes("/in/a.md"));
    assert!(!r.excludes("/in/drafts/b.md"));
    assert!(!r.excludes(""));
}

#[test]
fn pattern_excludes_what_it_matches() {
    let r = rules("/in", &["drafts/**"]);
    assert!(r.overrides().is_some());
    assert!(r.excludes("/in/drafts/b.md"));
    assert!(r.excludes("/in/drafts/deep/b.md"));
    assert!(!r.excludes("/in/a.md"));
    assert!(!r.excludes("/in/other/drafts.md"));
}

#[test]
fn pattern_for_a_file_name_matches_at_any_depth() {
    let r = rules("/in", &["*.tmp.md"]);
    assert!(r.excludes("/in/a.tmp.md"));
    assert!(r.excludes("/in/sub/a.tmp.md"));
    assert!(!r.excludes("/in/sub/a.md"));
}

#[test]
fn pattern_for_a_directory_excludes_what_lies_below() {
    let r = rules("/in", &["old/"]);
    assert!(r.excludes("/in/old/a.md"));
    assert!(r.excludes("/in/sub/old/deep/a.md"));
    assert!(!r.excludes("/in/older/a.md"));
    assert!(!r.excludes("/in/old"));
}

#[test]
fn anchored_pattern_matches_below_the_root_only() {
    let r = rules("/in", &["/build"]);
    assert!(r.excludes("/in/build/a.md"));
    assert!(!r.excludes("/in/sub/build/a.md"));
}

#[test]
fn any_of_several_patterns_excludes() {
    let r = rules("/in", &["drafts/**", "*.bak.md"]);
    assert!(r.excludes("/in/drafts/a.md"));
    assert!(r.excludes("/in/x.bak.md"));
    assert!(!r.excludes("/in/x.md"));
}

#[test]
fn root_with_a_separator_at_its_end() {
    let r = rules("/in/", &["drafts/"]);
    assert!(r.excludes("/in/drafts/a.md"));
    assert!(!r.excludes("/in/a.md"));
}

#[test]
fn malformed_pattern_is_rejected_with_its_position() {
    let compiled = IgnoreRules::compile("/in", &strings(&["drafts/**", "a[b"]));
    assert!(matches!(compiled, Err(PatternError::Rejected { index: 1 })));
    let first = IgnoreRules::compile("/in", &strings(&["{a,b"]));
    assert!(matches!(first, Err(PatternError::Rejected { index: 0 })));
}

#[test]
fn for_profile_compiles_the_profiles_patterns() {
    let p = profile("drafts/**");
    let r = match IgnoreRules::for_profile(&p) {
        Ok(r) => r,
        Err(_) => panic!("patterns are globs"),
    };
    assert!(r.excludes("/in/drafts/b.md"));
    assert!(!r.excludes("/in/a.md"));
    let none = profile("");
    assert!(matches!(IgnoreRules::for_profile(&none), Ok(_)));
}

#[test]
fn admits_regular_files_with_the_extension() {
    let p = profile("");
    assert!(admits(&p, false, &file("/in/a.md"), false));
    assert!(admits(&p, false, &file("/in/sub/a.md"), false));
    assert!(!admits(&p, false, &dir("/in/sub.md"), false));
    assert!(!admits(&p, false, &file("/in/a.txt"), false));
    assert!(!admits(&p, false, &file("/in/a.MD"), false));
    assert!(!admits(&p, false, &file("/in/md"), false));
}

#[test]
fn admits_nothing_that_is_left_out() {
    let p = profile("");
    assert!(!admits(&p, false, &file("/in/a.md"), true));
    assert!(!admits(&p, true, &file("/in/a.md"), true));
}

#[test]
fn admits_nothing_outside_the_root() {
    let p = profile("");
    assert!(!admits(&p, true, &file("/elsewhere/a.md"), false));
    assert!(!admits(&p, true, &file("/inner/a.md"), false));
}

#[test]
fn admits_hidden_entries_only_on_request() {
    let p = profile("");
    assert!(!admits(&p, false, &file("/in/.a.md"), false));
    assert!(!admits(&p, false, &file("/in/.git/a.md"), false));
    assert!(admits(&p, true, &file("/in/.a.md"), false));
    assert!(admits(&p, true, &file("/in/.git/a.md"), false));
}

#[test]
fn hidden_root_does_not_hide_its_files() {
    let p = Profile::new("pandoc", "/home/u/.notes", "md", "/out", "html", "", "");
    assert!(admits(&p, false, &file("/home/u/.notes/a.md"), false));
}

#[test]
fn ignored_file_is_no_candidate_despite_its_extension() {
    let p = profile("drafts/**");
    let r = rules("/in", &["drafts/**"]);
    assert!(accepts(&p, &r, false, &file("/in/a.md")));
    assert!(!accepts(&p, &r, false, &file("/in/drafts/b.md")));
    assert!(!accepts(&p, &r, true, &file("/in/drafts/b.md")));
}

#[test]
fn candidates_keep_the_order_of_the_walk() {
    let p = profile("drafts/**");
    let r = rules("/in", &["drafts/**"]);
    let entries = vec![
        dir("/in"),
        file("/in/z.md"),
        dir("/in/drafts"),
        file("/in/drafts/b.md"),
        file("/in/a.md"),
        file("/in/a.txt"),
        file("/in/.h.md"),
    ];
    assert_eq!(candidates(&p, &r, false, &entries), strings(&["/in/z.md", "/in/a.md"]));
    assert_eq!(
        candidates(&p, &r, true, &entries),
        strings(&["/in/z.md", "/in/a.md", "/in/.h.md"])
    );
    assert_eq!(candidates(&p, &r, true, &Vec::new()), Vec::<String>::new());
}

#[test]
fn walk_yields_the_candidates_by_the_profiles_own_patterns() {
    let p = profile("drafts/**\n*.bak.md");
    let entries = vec![
        file("/in/a.md"),
        file("/in/drafts/b.md"),
        file("/in/c.bak.md"),
        file("/in/sub/d.md"),
        dir("/in/sub"),
    ];
    match walk(&p, false, &entries) {
        Ok(found) => assert_eq!(found, strings(&["/in/a.md", "/in/sub/d.md"])),
        Err(_) => panic!("patterns are globs"),
    }
}

#[test]
fn walk_without_patterns_yields_every_matching_file() {
    let p = profile("");
    let entries = vec![file("/in/a.md"), file("/in/drafts/b.md"), file("/in/c.txt")];
    match walk(&p, false, &entries) {
        Ok(found) => assert_eq!(found, strings(&["/in/a.md", "/in/drafts/b.md"])),
        Err(_) => panic!("there is no pattern to refuse"),
    }
}

#[test]
fn walk_fails_on_a_malformed_pattern() {
    let p = profile("ok/**\n[");
    assert!(matches!(
        walk(&p, false, &vec![file("/in/a.md")]),
        Err(PatternError::Rejected { index: 1 })
    ));
}

#[test]
fn too_many_patterns_cannot_be_built() {
    let patterns: Vec<String> = (0..6000)
        .map(|n| format!("dir/a*b*c*d*e*f*g*h*i*j*k*l*m*n*o*p*q*r*s*t*u*v*w*x*y*z{}", n))
        .collect();
    assert!(matches!(IgnoreRules::compile("/in", &patterns), Err(PatternError::Unbuildable)));
}

#[test]
fn white_space_at_the_end_of_a_pattern_does_not_count() {
    let r = rules("/in", &["drafts/** ", "*.bak.md\t"]);
    assert!(r.excludes("/in/drafts/b.md"));
    assert!(r.excludes("/in/x.bak.md"));
    assert!(!r.excludes("/in/a.md"));
}

#[test]
fn escaped_space_at_the_end_of_a_pattern_counts() {
    let r = rules("/in", &["old\\ "]);
    assert!(r.excludes("/in/old /a.md"));
    assert!(r.excludes("/in/old "));
    assert!(!r.excludes("/in/old/a.md"));
}

#[test]
fn pattern_of_white_space_makes_no_rule() {
    assert!(!is_rule(""));
    assert!(!is_rule("  "));
    assert!(!is_rule("\t \u{a0}\u{2003}\u{3000}"));
    let r = rules("/in", &["", "  ", "\t"]);
    assert!(r.overrides().is_none());
    assert!(!r.excludes("/in/a.md"));
    let mixed = rules("/in", &["", "drafts/**", " "]);
    assert!(mixed.excludes("/in/drafts/b.md"));
    assert!(!mixed.excludes("/in/a.md"));
}

#[test]
fn comment_makes_no_rule() {
    assert!(!is_rule("#"));
    assert!(!is_rule("# drafts are left out"));
    let r = rules("/in", &["# drafts are left out", "drafts/**", "#[unclosed"]);
    assert!(r.excludes("/in/drafts/b.md"));
    assert!(!r.excludes("/in/a.md"));
    assert!(!r.excludes("/in/# drafts are left out"));
}

#[test]
fn every_other_pattern_makes_a_rule() {
    assert!(is_rule("drafts/**"));
    assert!(is_rule(" lead"));
    assert!(is_rule("trail  "));
    assert!(is_rule("\\ "));
    assert!(is_rule("!"));
    assert!(is_rule("a#"));
    assert!(is_rule("\u{200b}"));
}

#[test]
fn position_of_a_malformed_pattern_counts_every_pattern() {
    let compiled = IgnoreRules::compile("/in", &strings(&["", "# note", "a[b"]));
    assert!(matches!(compiled, Err(PatternError::Rejected { index: 2 })));
}

#[test]
fn root_written_with_a_leading_dot_and_slash() {
    let r = rules("./in", &["drafts/**", "old/"]);
    assert!(r.excludes("./in/drafts/b.md"));
    assert!(r.excludes("./in/sub/old/a.md"));
    assert!(!r.excludes("./in/a.md"));
    let p = Profile::new("pandoc", "./in", "md", "/out", "html", "", "drafts/**");
    let entries = vec![file("./in/a.md"), file("./in/drafts/b.md")];
    match walk(&p, false, &entries) {
        Ok(found) => assert_eq!(found, strings(&["./in/a.md"])),
        Err(_) => panic!("patterns are globs"),
    }
}

#[test]
fn overrides_are_the_rules_that_exclude() {
    let r = rules("/in", &["drafts/**"]);
    match r.overrides() {
        Some(compiled) => {
            assert!(compiled.matched("/in/drafts/b.md", false).is_ignore());
            assert!(!compiled.matched("/in/a.md", false).is_ignore());
            assert_eq!(compiled.path().to_str(), Some("/in"));
        }
        None => panic!("there is a pattern"),
    }
}

#[test]
fn compiling_the_same_patterns_twice_comes_to_the_same() {
    let patterns = strings(&["drafts/**", "a[b"]);
    for _ in 0..2 {
        assert!(matches!(
            IgnoreRules::compile("/in", &patterns),
            Err(PatternError::Rejected { index: 1 })
        ));
    }
    let good = strings(&["drafts/**"]);
    for _ in 0..2 {
        assert!(IgnoreRules::compile("/in", &good).is_ok());
    }
}

#[test]
fn white_space_is_what_trimming_takes_away() {
    for code in 0..=0x10FFFFu32 {
        if let Some(c) = char::from_u32(code) {
            let alone = c.to_string();
            assert_eq!(is_rule(&alone), !(c.is_whitespace() || c == '#'), "U+{:04X}", code);
            let behind = format!("a{}", c);
            assert_eq!(behind.trim_end() == "a", c.is_whitespace(), "U+{:04X}", code);
        }
    }
}
