use rs_clean::combine::{enter_entry, estimate_tokens, take_file, CombineStats};
use rs_clean::indicator::{file_extension, matches_indicator, same_text};
use rs_clean::menu::{App, Key};
use rs_clean::report::{check_root, describe_match, total_size, Outcome, PathError, ScanResult, Summary};
use rs_clean::rules::{classify, clean_rules, rule_matches};
use rs_clean::walker::{child_path, path_is_prefix, plan_directory, Visit};

fn strings(v: &[&str]) -> Vec<String> {
    v.iter().map(|s| s.to_string()).collect()
}

#[test]
fn extension_reading() {
    assert_eq!(file_extension("a.csproj"), Some("csproj"));
    assert_eq!(file_extension("a.b.c"), Some("c"));
    assert_eq!(file_extension(".csproj"), None);
    assert_eq!(file_extension("Makefile"), None);
    assert_eq!(file_extension(".."), None);
    assert_eq!(file_extension("a."), Some(""));
    assert_eq!(file_extension(".a.b"), Some("b"));
}

#[test]
fn indicator_kinds() {
    let entries = strings(&["package.json", "web.csproj", "notes"]);
    assert!(matches_indicator("package.json", &entries));
    assert!(!matches_indicator("Cargo.toml", &entries));
    assert!(matches_indicator("*.csproj", &entries));
    assert!(!matches_indicator("*.sln", &entries));
    assert!(!matches_indicator("*csproj", &entries));
    assert!(!matches_indicator("package.json", &vec![]));
}

#[test]
fn rule_table_and_classification() {
    let rules = clean_rules();
    assert_eq!(rules.len(), 7);
    assert_eq!(rules[0].folder_name, "node_modules");
    assert_eq!(rules[5].project_indicator.as_deref(), Some("*.csproj"));
    let entries = strings(&["package.json"]);
    assert_eq!(classify(&rules, "node_modules", &entries), Some(0));
    assert_eq!(classify(&rules, "node_modules", &vec![]), None);
    assert_eq!(classify(&rules, "venv", &vec![]), Some(3));
    assert_eq!(classify(&rules, ".venv", &vec![]), Some(4));
    assert_eq!(classify(&rules, "src", &entries), None);
    assert!(rule_matches(&rules[1], "target", &strings(&["Cargo.toml"])));
    assert!(!rule_matches(&rules[1], "Target", &strings(&["Cargo.toml"])));
}

#[test]
fn directory_decisions() {
    let rules = clean_rules();
    let entries = strings(&["composer.json"]);
    assert!(matches!(plan_directory(&rules, "vendor", &entries, false, false), Visit::Report { rule: 2 }));
    assert!(matches!(plan_directory(&rules, "vendor", &entries, false, true), Visit::Remove { rule: 2 }));
    assert!(matches!(plan_directory(&rules, "vendor", &vec![], false, true), Visit::Descend));
    assert!(matches!(plan_directory(&rules, ".git", &entries, false, true), Visit::Skip));
    assert!(matches!(plan_directory(&rules, ".git", &entries, true, true), Visit::Descend));
    assert!(matches!(plan_directory(&rules, ".venv", &vec![], false, false), Visit::Report { rule: 4 }));
}

#[test]
fn path_helpers() {
    let a = strings(&["x", "y"]);
    let b = strings(&["x", "y", "z"]);
    assert!(path_is_prefix(&a, &b));
    assert!(path_is_prefix(&a, &a));
    assert!(!path_is_prefix(&b, &a));
    assert!(!path_is_prefix(&strings(&["x", "q"]), &b));
    assert_eq!(child_path(&a, &"z".to_string()), b);
    assert!(same_text("abc", "abc"));
    assert!(!same_text("abc", "abd"));
}

#[test]
fn result_totals() {
    let mut r = ScanResult::new();
    r.record(10, Outcome::Found);
    r.record(5, Outcome::Removed);
    r.record(7, Outcome::RemoveFailed);
    assert_eq!(r, ScanResult { matched: 3, removed: 1, bytes: 15 });
    let m = r.merge(&ScanResult { matched: 1, removed: 1, bytes: u64::MAX });
    assert_eq!(m, ScanResult { matched: 4, removed: 2, bytes: u64::MAX });
    assert_eq!(m, ScanResult { matched: 1, removed: 1, bytes: u64::MAX }.merge(&r));
}

#[test]
fn empty_scan_summary() {
    let r = ScanResult::new();
    assert_eq!(rs_clean::report::summarize(&r, false), Summary::Clean);
    assert_eq!(rs_clean::report::summarize(&r, true), Summary::Clean);
    assert!(Summary::Clean.size_label().is_none());
}

#[test]
fn root_checks() {
    assert_eq!(check_root(false, false), Err(PathError::Missing));
    assert_eq!(check_root(true, false), Err(PathError::NotADirectory));
    assert_eq!(check_root(true, true), Ok(()));
}

#[test]
fn sizes_add_up() {
    assert_eq!(total_size(&vec![]), 0);
    assert_eq!(total_size(&vec![Some(3), None, Some(4)]), 7);
    assert_eq!(total_size(&vec![Some(u64::MAX), Some(1)]), u64::MAX);
}

#[test]
fn match_line_has_readable_size() {
    let rules = clean_rules();
    let line = describe_match(&rules[0], 2048);
    assert_eq!(line.folder_name, "node_modules");
    assert_eq!(line.description, "Node.js dependencies");
    assert_eq!(line.size, 2048);
    assert_eq!(line.size_text, bytesize::ByteSize(2048).to_string());
    assert_ne!(line.size_text, "2048");
    assert_eq!(describe_match(&rules[0], 999).size_text, "999 B");
}

#[test]
fn combine_filters() {
    assert!(enter_entry(".hidden_root", 0, true));
    assert!(!enter_entry(".git", 1, true));
    assert!(!enter_entry("node_modules", 2, true));
    assert!(enter_entry("src", 1, true));
    assert!(enter_entry("dist", 1, false));
    let none: Vec<String> = vec![];
    assert!(take_file("main.rs", Some("rs"), &none, &none));
    assert!(!take_file("Cargo.lock", Some("lock"), &none, &none));
    assert!(!take_file(".env", None, &none, &none));
    assert!(!take_file("logo.png", Some("png"), &none, &none));
    assert!(!take_file("main.py", Some("py"), &strings(&["rs"]), &none));
    assert!(!take_file("main.rs", Some("rs"), &none, &strings(&["rs"])));
    assert!(take_file("LICENSE", None, &strings(&["rs"]), &none));
    assert!(!take_file("notes", None, &strings(&["rs"]), &none));
    assert!(take_file("notes", None, &none, &none));
}

#[test]
fn token_estimate() {
    assert_eq!(estimate_tokens(""), 0);
    assert_eq!(estimate_tokens("abcdefg"), 1);
    assert_eq!(estimate_tokens("abcdefgh"), 2);
    assert_eq!(estimate_tokens("ééééé"), 1);
    let mut s = CombineStats::new();
    s.add_file("abcdefgh", 8);
    s.add_file("xyz", 3);
    assert_eq!(s, CombineStats { files: 2, bytes: 11, tokens: 2 });
}

#[test]
fn menu_moves_and_wraps() {
    let mut app = App::new();
    assert_eq!(app.items.len(), 2);
    assert_eq!(app.selected, None);
    app.next();
    assert_eq!(app.selected, Some(0));
    app.next();
    assert_eq!(app.selected, Some(1));
    app.next();
    assert_eq!(app.selected, Some(0));
    app.previous();
    assert_eq!(app.selected, Some(1));
    let mut fresh = App::new();
    fresh.previous();
    assert_eq!(fresh.selected, Some(0));
}

#[test]
fn menu_keys() {
    let mut app = App::new();
    assert!(!app.handle_key(Key::Enter));
    assert!(!app.handle_key(Key::Down));
    assert!(!app.handle_key(Key::Enter));
    assert!(!app.handle_key(Key::Down));
    assert!(app.handle_key(Key::Enter));
    assert!(app.handle_key(Key::Char('q')));
    assert!(!app.handle_key(Key::Char('x')));
    assert!(!app.handle_key(Key::Other));
    assert_eq!(app.selected, Some(1));
}
