use vstd::prelude::*;
use crate::indicator::{indicator_holds, names_of, matches_indicator, same_text};

verus! {

/// A kind of regenerable directory: its name, the optional indicator that its
/// parent must show (a sibling file name or a `*.ext` glob), and a label.
pub struct CleanRule {
    pub folder_name: String,
    pub project_indicator: Option<String>,
    pub description: String,
}

/// The plain-value form of a rule.
pub struct RuleView {
    pub folder_name: Seq<char>,
    pub project_indicator: Option<Seq<char>>,
    pub description: Seq<char>,
}

impl View for CleanRule {
    type V = RuleView;

    open spec fn view(&self) -> RuleView {
        RuleView {
            folder_name: self.folder_name@,
            project_indicator: match self.project_indicator {
                Some(p) => Some(p@),
                None => None,
            },
            description: self.description@,
        }
    }
}

/// The views of a sequence of rules.
pub open spec fn rule_views(rules: Seq<CleanRule>) -> Seq<RuleView> {
    rules.map_values(|r: CleanRule| r@)
}

/// The rule table that the cleaner ships with.
pub open spec fn default_rules() -> Seq<RuleView> {
    seq![
        RuleView { folder_name: "node_modules"@, project_indicator: Some("package.json"@), description: "Node.js dependencies"@ },
        RuleView { folder_name: "target"@, project_indicator: Some("Cargo.toml"@), description: "Rust build artifacts"@ },
        RuleView { folder_name: "vendor"@, project_indicator: Some("composer.json"@), description: "PHP dependencies"@ },
        RuleView { folder_name: "venv"@, project_indicator: None, description: "Python virtual environment"@ },
        RuleView { folder_name: ".venv"@, project_indicator: None, description: "Python virtual environment"@ },
        RuleView { folder_name: "bin"@, project_indicator: Some("*.csproj"@), description: ".NET build output"@ },
        RuleView { folder_name: "obj"@, project_indicator: Some("*.csproj"@), description: ".NET intermediate output"@ },
    ]
}

/// Whether `rule` claims a directory named `name` whose parent holds `entries`.
pub open spec fn rule_applies(rule: RuleView, name: Seq<char>, entries: Seq<Seq<char>>) -> bool {
    &&& rule.folder_name == name
    &&& match rule.project_indicator {
        Some(p) => indicator_holds(p, entries),
        None => true,
    }
}

/// `k` is the first rule of `rules` that claims the directory.
pub open spec fn is_first_match(rules: Seq<RuleView>, name: Seq<char>, entries: Seq<Seq<char>>, k: int) -> bool {
    &&& 0 <= k < rules.len()
    &&& rule_applies(rules[k], name, entries)
    &&& forall|j: int| 0 <= j < k ==> !rule_applies(#[trigger] rules[j], name, entries)
}

/// No rule of `rules` claims the directory.
pub open spec fn no_match(rules: Seq<RuleView>, name: Seq<char>, entries: Seq<Seq<char>>) -> bool {
    forall|j: int| 0 <= j < rules.len() ==> !rule_applies(#[trigger] rules[j], name, entries)
}

/// Folder names are unique across the rules.
pub open spec fn unique_names(rules: Seq<RuleView>) -> bool {
    forall|i: int, j: int|
        0 <= i < rules.len() && 0 <= j < rules.len() && i != j ==> #[trigger] rules[i].folder_name
            != #[trigger] rules[j].folder_name
}

fn make_rule(folder_name: &str, project_indicator: Option<&str>, description: &str) -> (r: CleanRule)
    ensures
        r@.folder_name == folder_name@,
        r@.description == description@,
        r@.project_indicator == (match project_indicator {
            Some(p) => Some(p@),
            None => None::<Seq<char>>,
        }),
{
    CleanRule {
        folder_name: String::from_str(folder_name),
        project_indicator: match project_indicator {
            Some(p) => Some(String::from_str(p)),
            None => None,
        },
        description: String::from_str(description),
    }
}

/// Builds the rule table that the cleaner ships with.
pub fn clean_rules() -> (r: Vec<CleanRule>)
    ensures
        rule_views(r@) == default_rules(),
{
    let mut v: Vec<CleanRule> = Vec::new();
    v.push(make_rule("node_modules", Some("package.json"), "Node.js dependencies"));
    v.push(make_rule("target", Some("Cargo.toml"), "Rust build artifacts"));
    v.push(make_rule("vendor", Some("composer.json"), "PHP dependencies"));
    v.push(make_rule("venv", None, "Python virtual environment"));
    v.push(make_rule(".venv", None, "Python virtual environment"));
    v.push(make_rule("bin", Some("*.csproj"), ".NET build output"));
    v.push(make_rule("obj", Some("*.csproj"), ".NET intermediate output"));
    assert(rule_views(v@) =~= default_rules());
    v
}

/// Whether `rule` claims a directory named `name` whose parent holds `entries`.
pub fn rule_matches(rule: &CleanRule, name: &str, entries: &Vec<String>) -> (r: bool)
    ensures
        r == rule_applies(rule@, name@, names_of(entries@)),
{
    if !same_text(rule.folder_name.as_str(), name) {
        return false;
    }
    match &rule.project_indicator {
        Some(p) => matches_indicator(p.as_str(), entries),
        None => true,
    }
}

/// The first rule that claims a directory named `name` whose parent holds
/// `entries`, or `None` where no rule does.
pub fn classify(rules: &Vec<CleanRule>, name: &str, entries: &Vec<String>) -> (r: Option<usize>)
    ensures
        match r {
            Some(k) => is_first_match(rule_views(rules@), name@, names_of(entries@), k as int),
            None => no_match(rule_views(rules@), name@, names_of(entries@)),
        },
{
    let ghost views = rule_views(rules@);
    let ghost names = names_of(entries@);
    assert(views.len() == rules@.len());
    let mut i: usize = 0;
    while i < rules.len()
        invariant
            i <= rules@.len() == views.len(),
            views == rule_views(rules@),
            names == names_of(entries@),
            forall|j: int| 0 <= j < i ==> !rule_applies(#[trigger] views[j], name@, names),
        decreases rules@.len() - i,
    {
        assert(views[i as int] == rules@[i as int]@);
        if rule_matches(&rules[i], name, entries) {
            return Some(i);
        }
        i = i + 1;
    }
    None
}

} // verus!
