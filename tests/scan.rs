use rs_clean::report::{outcome_of, summarize, ScanResult, Summary};
use rs_clean::rules::clean_rules;
use rs_clean::walker::{Child, Visit, Walker};

/// A directory tree in memory: each entry is a path below the root, whether
/// it is a directory, and a file length.
type Tree = Vec<(String, bool, u64)>;

fn tree(entries: &[(&str, bool, u64)]) -> Tree {
    entries.iter().map(|(p, d, n)| (p.to_string(), *d, *n)).collect()
}

fn parent_of(p: &str) -> &str {
    match p.rfind('/') {
        Some(i) => &p[..i],
        None => "",
    }
}

fn name_of(p: &str) -> &str {
    match p.rfind('/') {
        Some(i) => &p[i + 1..],
        None => p,
    }
}

fn inside(p: &str, dir: &str) -> bool {
    p.starts_with(&format!("{}/", dir))
}

struct Run {
    result: ScanResult,
    found: Vec<String>,
    listed: Vec<String>,
    removed: Vec<String>,
    remaining: Tree,
}

/// Walks `t` as the cleaner does; a removal of a path in `failing` fails.
fn run(t: &Tree, force: bool, failing: &[&str]) -> Run {
    let (mut w, v) = Walker::start(clean_rules(), force, "root", &vec![]);
    assert!(matches!(v, Visit::Descend));
    let mut r = Run { result: ScanResult::new(), found: vec![], listed: vec![], removed: vec![], remaining: t.clone() };
    while let Some(dir) = w.next_dir() {
        let d = dir.join("/");
        r.listed.push(d.clone());
        let children: Vec<Child> = r
            .remaining
            .iter()
            .filter(|(p, _, _)| parent_of(p) == d)
            .map(|(p, is_dir, _)| Child { name: name_of(p).to_string(), is_dir: *is_dir })
            .collect();
        for f in w.visit_listing(&dir, &children) {
            let p = f.path.join("/");
            let size: u64 = r.remaining.iter().filter(|(q, is_dir, _)| !is_dir && inside(q, &p)).map(|e| e.2).sum();
            let ok = !failing.contains(&p.as_str());
            if f.remove && ok {
                r.remaining.retain(|(q, _, _)| q != &p && !inside(q, &p));
                r.removed.push(p.clone());
            }
            r.result.record(size, outcome_of(f.remove, ok));
            r.found.push(p);
        }
    }
    r
}

fn node_project() -> Tree {
    tree(&[
        ("proj", true, 0),
        ("proj/package.json", false, 20),
        ("proj/node_modules", true, 0),
        ("proj/node_modules/big.bin", false, 1_000_000),
    ])
}

#[test]
fn dry_run_reports_node_modules() {
    let r = run(&node_project(), false, &[]);
    assert_eq!(r.found, vec!["proj/node_modules".to_string()]);
    assert_eq!(r.result, ScanResult { matched: 1, removed: 0, bytes: 1_000_000 });
    assert!(r.removed.is_empty());
    assert_eq!(r.remaining, node_project());
    let s = summarize(&r.result, false);
    assert_eq!(s, Summary::Potential { bytes: 1_000_000 });
    let label = s.size_label().unwrap();
    assert_eq!(label, bytesize::ByteSize(1_000_000).to_string());
    assert_eq!(label, "1000.0 KB");
}

#[test]
fn force_run_removes_node_modules() {
    let r = run(&node_project(), true, &[]);
    assert_eq!(r.removed, vec!["proj/node_modules".to_string()]);
    assert_eq!(r.result, ScanResult { matched: 1, removed: 1, bytes: 1_000_000 });
    assert!(r.remaining.iter().all(|(p, _, _)| !p.starts_with("proj/node_modules")));
    assert_eq!(summarize(&r.result, true), Summary::Reclaimed { bytes: 1_000_000, folders: 1 });
}

#[test]
fn bin_without_csproj_is_entered() {
    let t = tree(&[
        ("lib", true, 0),
        ("lib/readme.txt", false, 5),
        ("lib/bin", true, 0),
        ("lib/bin/tool", false, 7),
        ("lib/bin/package.json", false, 2),
        ("lib/bin/node_modules", true, 0),
        ("lib/bin/node_modules/x.js", false, 9),
    ]);
    let r = run(&t, false, &[]);
    assert!(r.listed.contains(&"lib/bin".to_string()));
    assert_eq!(r.found, vec!["lib/bin/node_modules".to_string()]);
    assert_eq!(r.result.bytes, 9);
}

#[test]
fn failed_removal_is_not_reclaimed() {
    let t = tree(&[
        ("a", true, 0),
        ("a/package.json", false, 1),
        ("a/node_modules", true, 0),
        ("a/node_modules/locked.bin", false, 300),
        ("b", true, 0),
        ("b/package.json", false, 1),
        ("b/node_modules", true, 0),
        ("b/node_modules/free.bin", false, 50),
    ]);
    let r = run(&t, true, &["a/node_modules"]);
    assert_eq!(r.found.len(), 2);
    assert_eq!(r.removed, vec!["b/node_modules".to_string()]);
    assert_eq!(r.result, ScanResult { matched: 2, removed: 1, bytes: 50 });
    assert_eq!(summarize(&r.result, true), Summary::Reclaimed { bytes: 50, folders: 1 });
}

#[test]
fn nothing_inside_a_match_is_visited() {
    let t = tree(&[
        ("p", true, 0),
        ("p/package.json", false, 1),
        ("p/node_modules", true, 0),
        ("p/node_modules/dep", true, 0),
        ("p/node_modules/dep/package.json", false, 1),
        ("p/node_modules/dep/node_modules", true, 0),
        ("p/node_modules/dep/node_modules/f", false, 4),
        ("p/node_modules/venv", true, 0),
    ]);
    for force in [false, true] {
        let r = run(&t, force, &[]);
        assert_eq!(r.found, vec!["p/node_modules".to_string()]);
        assert!(r.listed.iter().all(|d| !d.starts_with("p/node_modules")));
        assert_eq!(r.result.bytes, 5);
    }
}

#[test]
fn dry_run_equals_force_total() {
    let t = tree(&[
        ("r", true, 0),
        ("r/Cargo.toml", false, 3),
        ("r/target", true, 0),
        ("r/target/a.o", false, 400),
        ("venv", true, 0),
        ("venv/lib.py", false, 60),
        ("n", true, 0),
        ("n/app.csproj", false, 1),
        ("n/obj", true, 0),
        ("n/obj/x", false, 8),
    ]);
    let dry = run(&t, false, &[]);
    let real = run(&t, true, &[]);
    assert!(dry.removed.is_empty());
    assert_eq!(dry.remaining, t);
    assert_eq!(dry.result.bytes, 468);
    assert_eq!(dry.result.bytes, real.result.bytes);
    assert_eq!(dry.result.matched, real.result.matched);
}

#[test]
fn second_force_run_finds_nothing() {
    let t = tree(&[
        ("w", true, 0),
        ("w/package.json", false, 3),
        ("w/node_modules", true, 0),
        ("w/node_modules/m", false, 11),
        (".venv", true, 0),
        (".venv/cfg", false, 2),
    ]);
    let first = run(&t, true, &[]);
    assert_eq!(first.result.removed, 2);
    let second = run(&first.remaining, true, &[]);
    assert_eq!(second.result.matched, 0);
    assert_eq!(summarize(&second.result, true), Summary::Clean);
}

#[test]
fn hidden_directories_are_not_entered() {
    let t = tree(&[
        (".git", true, 0),
        (".git/venv", true, 0),
        (".venv", true, 0),
        ("src", true, 0),
    ]);
    let r = run(&t, false, &[]);
    assert_eq!(r.found, vec![".venv".to_string()]);
    assert!(!r.listed.contains(&".git".to_string()));
}

#[test]
fn indicator_file_decides() {
    let with = tree(&[("c", true, 0), ("c/Cargo.toml", false, 1), ("c/target", true, 0)]);
    let without = tree(&[("c", true, 0), ("c/target", true, 0)]);
    assert_eq!(run(&with, false, &[]).found, vec!["c/target".to_string()]);
    let r = run(&without, false, &[]);
    assert!(r.found.is_empty());
    assert!(r.listed.contains(&"c/target".to_string()));
}

#[test]
fn glob_indicator_is_case_sensitive_and_shallow() {
    let upper = tree(&[("d", true, 0), ("d/App.CSPROJ", false, 1), ("d/bin", true, 0)]);
    assert!(run(&upper, false, &[]).found.is_empty());
    let deep = tree(&[("d", true, 0), ("d/sub", true, 0), ("d/sub/a.csproj", false, 1), ("d/bin", true, 0)]);
    assert!(run(&deep, false, &[]).found.is_empty());
    let good = tree(&[("d", true, 0), ("d/a.csproj", false, 1), ("d/bin", true, 0), ("d/obj", true, 0)]);
    let mut found = run(&good, false, &[]).found;
    found.sort();
    assert_eq!(found, vec!["d/bin".to_string(), "d/obj".to_string()]);
}

#[test]
fn matched_root_is_not_entered() {
    let (mut w, v) = Walker::start(clean_rules(), true, "venv", &vec![]);
    assert!(matches!(v, Visit::Remove { rule: 3 }));
    assert!(w.next_dir().is_none());
}

#[test]
fn nothing_under_a_match_is_handed_out_or_matched_again() {
    let (mut w, _) = Walker::start(clean_rules(), false, "root", &vec![]);
    let root = w.next_dir().unwrap();
    assert!(root.is_empty());
    let top = w.visit_listing(&root, &vec![Child { name: "p".to_string(), is_dir: true }]);
    assert!(top.is_empty());
    let p = w.next_dir().unwrap();
    assert_eq!(p, vec!["p".to_string()]);
    let listing = vec![
        Child { name: "package.json".to_string(), is_dir: false },
        Child { name: "node_modules".to_string(), is_dir: true },
    ];
    let found = w.visit_listing(&p, &listing);
    assert_eq!(found.len(), 1);
    assert_eq!(found[0].path, vec!["p".to_string(), "node_modules".to_string()]);
    assert_eq!(found[0].rule, 0);
    assert!(!found[0].remove);
    // The same listing again claims nothing new.
    assert!(w.visit_listing(&p, &listing).is_empty());
    // A directory queued under the match is dropped instead of handed out.
    let inner = found[0].path.clone();
    let queued = w.visit_listing(&inner, &vec![Child { name: "x".to_string(), is_dir: true }]);
    assert!(queued.is_empty());
    assert!(w.next_dir().is_none());
}
