use vstd::prelude::*;
use crate::indicator::{indicator_holds, glob_extension, extension_of};
use crate::rules::{RuleView, rule_applies, is_first_match, no_match, unique_names, default_rules};
use crate::walker::{Visit, visit_spec, skipped_hidden, is_prefix, Walker};
use crate::report::{Outcome, ScanResult, tally, merge_spec};

verus! {

/// The decision `v` matches the directory with rule `i`, reported in a dry run
/// and removed otherwise.
pub open spec fn matched_by(v: Visit, i: int, force: bool) -> bool {
    if force {
        v == (Visit::Remove { rule: i as usize })
    } else {
        v == (Visit::Report { rule: i as usize })
    }
}

proof fn lemma_only_rule(rules: Seq<RuleView>, i: int, name: Seq<char>, entries: Seq<Seq<char>>, k: int)
    requires
        unique_names(rules),
        0 <= i < rules.len(),
        rules[i].folder_name == name,
        is_first_match(rules, name, entries, k),
    ensures
        k == i,
{
    if k != i {
        assert(rules[k].folder_name != rules[i].folder_name);
    }
}

/// Under rules with unique folder names, the decision on a visible directory
/// named like rule `i` is a match by rule `i` exactly when that rule applies,
/// and otherwise the directory is entered.
proof fn lemma_decided_by_rule(
    rules: Seq<RuleView>,
    i: int,
    name: Seq<char>,
    entries: Seq<Seq<char>>,
    is_root: bool,
    force: bool,
    v: Visit,
)
    requires
        unique_names(rules),
        0 <= i < rules.len(),
        rules[i].folder_name == name,
        is_root || !skipped_hidden(name),
        visit_spec(rules, name, entries, is_root, force, v),
    ensures
        rule_applies(rules[i], name, entries) ==> matched_by(v, i, force),
        !rule_applies(rules[i], name, entries) ==> v is Descend,
{
    match v {
        Visit::Report { rule } => lemma_only_rule(rules, i, name, entries, rule as int),
        Visit::Remove { rule } => lemma_only_rule(rules, i, name, entries, rule as int),
        Visit::Descend => {
            assert(!rule_applies(rules[i], name, entries));
        },
        Visit::Skip => {},
    }
}

/// A directory named like a rule without indicator is always a match by that
/// rule, whatever its parent holds.
pub proof fn lemma_unconditional_rule_matches(
    rules: Seq<RuleView>,
    i: int,
    name: Seq<char>,
    entries: Seq<Seq<char>>,
    is_root: bool,
    force: bool,
    v: Visit,
)
    requires
        unique_names(rules),
        0 <= i < rules.len(),
        rules[i].project_indicator is None,
        rules[i].folder_name == name,
        is_root || !skipped_hidden(name),
        visit_spec(rules, name, entries, is_root, force, v),
    ensures
        matched_by(v, i, force),
{
    lemma_decided_by_rule(rules, i, name, entries, is_root, force, v);
}

/// A directory named like a rule whose indicator is a file name is a match by
/// that rule exactly when its parent holds that file; without it the directory
/// is entered like any other.
pub proof fn lemma_file_indicator_decides(
    rules: Seq<RuleView>,
    i: int,
    name: Seq<char>,
    entries: Seq<Seq<char>>,
    is_root: bool,
    force: bool,
    v: Visit,
)
    requires
        unique_names(rules),
        0 <= i < rules.len(),
        rules[i].project_indicator matches Some(p) && !p.contains('*'),
        rules[i].folder_name == name,
        is_root || !skipped_hidden(name),
        visit_spec(rules, name, entries, is_root, force, v),
    ensures
        matched_by(v, i, force) <==> entries.contains(rules[i].project_indicator.unwrap()),
        !entries.contains(rules[i].project_indicator.unwrap()) ==> v is Descend,
{
    lemma_decided_by_rule(rules, i, name, entries, is_root, force, v);
    let p = rules[i].project_indicator.unwrap();
    if entries.contains(p) {
        assert(indicator_holds(p, entries));
    }
}

/// A directory named like a rule whose indicator is `*.ext` is a match by that
/// rule exactly when some entry of its parent has the extension `ext` (compared
/// exactly, without looking deeper).
pub proof fn lemma_glob_indicator_decides(
    rules: Seq<RuleView>,
    i: int,
    name: Seq<char>,
    entries: Seq<Seq<char>>,
    ext: Seq<char>,
    is_root: bool,
    force: bool,
    v: Visit,
)
    requires
        unique_names(rules),
        0 <= i < rules.len(),
        rules[i].project_indicator matches Some(p) && p.contains('*') && glob_extension(p) == Some(ext),
        rules[i].folder_name == name,
        is_root || !skipped_hidden(name),
        visit_spec(rules, name, entries, is_root, force, v),
    ensures
        matched_by(v, i, force) <==> exists|j: int|
            0 <= j < entries.len() && extension_of(#[trigger] entries[j]) == Some(ext),
{
    lemma_decided_by_rule(rules, i, name, entries, is_root, force, v);
}

/// The shipped rule table names each folder once, and none of its folders is
/// passed over as hidden.
pub proof fn lemma_default_rules_well_formed()
    ensures
        unique_names(default_rules()),
        forall|i: int| 0 <= i < default_rules().len() ==> !skipped_hidden(#[trigger] default_rules()[i].folder_name),
{
    reveal_strlit("node_modules");
    reveal_strlit("target");
    reveal_strlit("vendor");
    reveal_strlit("venv");
    reveal_strlit(".venv");
    reveal_strlit("bin");
    reveal_strlit("obj");
    let r = default_rules();
    assert forall|i: int, j: int|
        0 <= i < r.len() && 0 <= j < r.len() && i != j implies #[trigger] r[i].folder_name
            != #[trigger] r[j].folder_name by {
        if r[i].folder_name == r[j].folder_name {
            assert(r[i].folder_name.len() == r[j].folder_name.len());
            assert(r[i].folder_name[0] == r[j].folder_name[0]);
            assert(r[i].folder_name[1] == r[j].folder_name[1]);
        }
    }
}

/// No directory that a walk matched lies inside, or is, another one it matched.
pub proof fn lemma_matches_never_nest(w: Walker, i: int, j: int)
    requires
        w.wf(),
        0 <= i < w.claimed_paths().len(),
        0 <= j < w.claimed_paths().len(),
        i != j,
    ensures
        !is_prefix(w.claimed_paths()[i], w.claimed_paths()[j]),
{
}

/// A dry run never decides to remove anything, and it matches exactly the
/// directories that a removing run matches, by the same rules.
pub proof fn lemma_dry_run_decides_like_force(
    rules: Seq<RuleView>,
    name: Seq<char>,
    entries: Seq<Seq<char>>,
    is_root: bool,
    k: usize,
    v: Visit,
)
    requires
        visit_spec(rules, name, entries, is_root, false, v),
    ensures
        !(v is Remove),
        (v == Visit::Report { rule: k }) <==> visit_spec(rules, name, entries, is_root, true, Visit::Remove { rule: k }),
{
}

/// Every entry of `fewer` is also an entry of `more`.
pub open spec fn entries_within(fewer: Seq<Seq<char>>, more: Seq<Seq<char>>) -> bool {
    forall|j: int| 0 <= j < fewer.len() ==> more.contains(#[trigger] fewer[j])
}

/// Removing entries from a directory (as a removing run does with the
/// directories it matched) never makes a rule claim a sibling that no rule
/// claimed before: a directory that a run entered is entered again by a run
/// over what is left, which is why a second removing run finds nothing new.
pub proof fn lemma_removal_claims_nothing_new(
    rules: Seq<RuleView>,
    name: Seq<char>,
    before: Seq<Seq<char>>,
    after: Seq<Seq<char>>,
)
    requires
        no_match(rules, name, before),
        entries_within(after, before),
    ensures
        no_match(rules, name, after),
{
    assert forall|k: int| 0 <= k < rules.len() implies !rule_applies(#[trigger] rules[k], name, after) by {
        assert(!rule_applies(rules[k], name, before));
        if rule_applies(rules[k], name, after) {
            let p = rules[k].project_indicator.unwrap();
            if p.contains('*') {
                let ext = glob_extension(p).unwrap();
                let j = choose|j: int| 0 <= j < after.len() && extension_of(#[trigger] after[j]) == Some(ext);
                assert(before.contains(after[j]));
                let m = choose|m: int| 0 <= m < before.len() && before[m] == after[j];
                assert(extension_of(before[m]) == Some(ext));
            } else {
                let j = choose|j: int| 0 <= j < after.len() && #[trigger] after[j] == p;
                assert(before.contains(after[j]));
                let m = choose|m: int| 0 <= m < before.len() && before[m] == after[j];
                assert(before[m] == p);
            }
        }
    }
}

/// The matches of `sizes`, all with the same outcome.
pub open spec fn uniform(sizes: Seq<u64>, outcome: Outcome) -> Seq<(u64, Outcome)> {
    sizes.map_values(|s: u64| (s, outcome))
}

/// The space a dry run reports equals the space a removing run reclaims when
/// every removal succeeds, over the same matches; so does the match count.
pub proof fn lemma_dry_run_size_equals_reclaimed(sizes: Seq<u64>)
    ensures
        tally(uniform(sizes, Outcome::Found)).bytes == tally(uniform(sizes, Outcome::Removed)).bytes,
        tally(uniform(sizes, Outcome::Found)).matched == tally(uniform(sizes, Outcome::Removed)).matched,
    decreases sizes.len(),
{
    if sizes.len() > 0 {
        let s = sizes.drop_last();
        lemma_dry_run_size_equals_reclaimed(s);
        assert(uniform(sizes, Outcome::Found).drop_last() =~= uniform(s, Outcome::Found));
        assert(uniform(sizes, Outcome::Removed).drop_last() =~= uniform(s, Outcome::Removed));
    }
}

/// A failed removal leaves the reclaimed space as it was: only removed
/// directories count toward it.
pub proof fn lemma_failed_removal_reclaims_nothing(events: Seq<(u64, Outcome)>, size: u64)
    ensures
        tally(events.push((size, Outcome::RemoveFailed))).bytes == tally(events).bytes,
        tally(events.push((size, Outcome::RemoveFailed))).removed == tally(events).removed,
{
    assert(events.push((size, Outcome::RemoveFailed)).drop_last() =~= events);
}

/// Merging partial results does not depend on their order.
pub proof fn lemma_merge_commutes(a: ScanResult, b: ScanResult)
    ensures
        merge_spec(a, b) == merge_spec(b, a),
{
}

/// Merging partial results does not depend on their grouping.
pub proof fn lemma_merge_associates(a: ScanResult, b: ScanResult, c: ScanResult)
    ensures
        merge_spec(merge_spec(a, b), c) == merge_spec(a, merge_spec(b, c)),
{
}

} // verus!
