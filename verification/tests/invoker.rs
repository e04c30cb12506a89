use tern::invoker::{engine_call, escape_shell_chars, prepare, EngineTable};
use tern::profile::Profile;

fn strings(items: &[&str]) -> Vec<String> {
    items.iter().map(|s| s.to_string()).collect()
}

fn profile(options: &str) -> Profile {
    Profile::new("pandoc.lua", "/in", "md", "/out", "html", options, "")
}

#[test]
fn escape_leaves_plain_paths_alone() {
    assert_eq!(escape_shell_chars("/in/sub/a.md"), "/in/sub/a.md");
    assert_eq!(escape_shell_chars(""), "");
    assert_eq!(escape_shell_chars("a\\b"), "a\\b");
    assert_eq!(escape_shell_chars("a'b\"c*d"), "a'b\"c*d");
}

#[test]
fn escape_guards_each_shell_character() {
    assert_eq!(escape_shell_chars("&"), "\\&");
    assert_eq!(escape_shell_chars(";"), "\\;");
    assert_eq!(escape_shell_chars("|"), "\\|");
    assert_eq!(escape_shell_chars(">"), "\\>");
    assert_eq!(escape_shell_chars("<"), "\\<");
    assert_eq!(escape_shell_chars("`"), "\\`");
    assert_eq!(escape_shell_chars("$"), "\\$");
    assert_eq!(escape_shell_chars("("), "\\(");
    assert_eq!(escape_shell_chars(")"), "\\)");
    assert_eq!(escape_shell_chars(" "), "\\ ");
}

#[test]
fn escape_guards_inside_a_path() {
    assert_eq!(escape_shell_chars("/in/my notes/a&b.md"), "/in/my\\ notes/a\\&b.md");
    assert_eq!(escape_shell_chars("a;rm -rf $(x)"), "a\\;rm\\ -rf\\ \\$\\(x\\)");
    assert_eq!(escape_shell_chars("  "), "\\ \\ ");
    assert_eq!(escape_shell_chars("é ü"), "é\\ ü");
}

#[test]
fn escape_agrees_with_replacing_one_by_one() {
    for path in ["/in/a b.md", "x&&y||z", "`a`>b<c", "$(a);(b)", "plain", " lead", "trail "] {
        let expected = path
            .replace("&", "\\&")
            .replace(";", "\\;")
            .replace("|", "\\|")
            .replace(">", "\\>")
            .replace("<", "\\<")
            .replace("`", "\\`")
            .replace("$", "\\$")
            .replace("(", "\\(")
            .replace(")", "\\)")
            .replace(" ", "\\ ");
        assert_eq!(escape_shell_chars(path), expected);
    }
}

#[test]
fn engine_call_hands_on_the_options() {
    let call = engine_call(&profile("-s\n--toc"), "/in/a.md", "/out/a.html", false);
    assert_eq!(call.engine, "pandoc.lua");
    assert_eq!(call.source, "/in/a.md");
    assert_eq!(call.destination, "/out/a.html");
    assert_eq!(call.options, strings(&["-s", "--toc"]));
}

#[test]
fn engine_call_defaults_to_one_empty_option() {
    let call = engine_call(&profile(""), "/in/a.md", "/out/a.html", false);
    assert_eq!(call.options, strings(&[""]));
}

#[test]
fn engine_call_escapes_only_for_a_shell() {
    let direct = engine_call(&profile(""), "/in/a b.md", "/out/a b.html", false);
    assert_eq!(direct.source, "/in/a b.md");
    assert_eq!(direct.destination, "/out/a b.html");
    let shell = engine_call(&profile(""), "/in/a b.md", "/out/a b.html", true);
    assert_eq!(shell.source, "/in/a\\ b.md");
    assert_eq!(shell.destination, "/out/a\\ b.html");
}

#[test]
fn prepare_places_the_output_and_names_its_directory() {
    let job = match prepare(&profile("-s"), "/in/sub/a b.md", true) {
        Some(job) => job,
        None => panic!("the file lies below the root"),
    };
    assert_eq!(job.source, "/in/sub/a b.md");
    assert_eq!(job.destination, "/out/sub/a b.html");
    assert_eq!(job.directory, "/out/sub");
    assert_eq!(job.call.engine, "pandoc.lua");
    assert_eq!(job.call.source, "/in/sub/a\\ b.md");
    assert_eq!(job.call.destination, "/out/sub/a\\ b.html");
    assert_eq!(job.call.options, strings(&["-s"]));
}

#[test]
fn prepare_has_nothing_for_a_file_elsewhere() {
    assert!(prepare(&profile(""), "/other/a.md", false).is_none());
    assert!(prepare(&profile(""), "/in", false).is_none());
}

#[test]
fn engine_is_new_once_and_keeps_its_slot() {
    let mut table = EngineTable::new();
    assert_eq!(table.len(), 0);
    assert_eq!(table.slot("pandoc.lua"), (0, true));
    assert_eq!(table.slot("magick.lua"), (1, true));
    assert_eq!(table.slot("pandoc.lua"), (0, false));
    assert_eq!(table.slot("magick.lua"), (1, false));
    assert_eq!(table.slot("Pandoc.lua"), (2, true));
    assert_eq!(table.len(), 3);
}
