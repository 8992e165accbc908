use vstd::prelude::*;
use crate::indicator::{names_of, same_text};
use crate::rules::{CleanRule, RuleView, rule_views, is_first_match, no_match, classify};

verus! {

/// What the walk does with a directory it meets.
pub enum Visit {
    /// Enter the directory and look at its entries.
    Descend,
    /// Leave the directory and everything under it alone.
    Skip,
    /// Report the directory as matched by rule `rule`; do not enter it.
    Report { rule: usize },
    /// Remove the directory, matched by rule `rule`; do not enter it.
    Remove { rule: usize },
}

/// A hidden name (one starting with a dot) that the walk passes over; `.venv`
/// stays visible because a rule names it.
pub open spec fn skipped_hidden(name: Seq<char>) -> bool {
    name.len() > 0 && name[0] == '.' && name != ".venv"@
}

/// The walk's decision for a directory named `name` whose parent holds
/// `entries`. The starting directory is never passed over for its name.
pub open spec fn visit_spec(
    rules: Seq<RuleView>,
    name: Seq<char>,
    entries: Seq<Seq<char>>,
    is_root: bool,
    force: bool,
    v: Visit,
) -> bool {
    if !is_root && skipped_hidden(name) {
        v is Skip
    } else {
        match v {
            Visit::Descend => no_match(rules, name, entries),
            Visit::Skip => false,
            Visit::Report { rule } => !force && is_first_match(rules, name, entries, rule as int),
            Visit::Remove { rule } => force && is_first_match(rules, name, entries, rule as int),
        }
    }
}

fn is_skipped_hidden(name: &str) -> (r: bool)
    ensures
        r == skipped_hidden(name@),
{
    let n = name.unicode_len();
    if n == 0 {
        return false;
    }
    if name.get_char(0) != '.' {
        return false;
    }
    !same_text(name, ".venv")
}

/// Decides what the walk does with a directory named `name` whose parent holds
/// the entries `entries`: a hidden one is skipped, one that a rule claims is
/// reported (dry run) or removed (`force`), any other is entered.
pub fn plan_directory(
    rules: &Vec<CleanRule>,
    name: &str,
    entries: &Vec<String>,
    is_root: bool,
    force: bool,
) -> (r: Visit)
    ensures
        visit_spec(rule_views(rules@), name@, names_of(entries@), is_root, force, r),
{
    if !is_root && is_skipped_hidden(name) {
        return Visit::Skip;
    }
    match classify(rules, name, entries) {
        Some(k) => {
            if force {
                Visit::Remove { rule: k }
            } else {
                Visit::Report { rule: k }
            }
        },
        None => Visit::Descend,
    }
}

/// `a` is `b` or an ancestor of it, both given as path components.
pub open spec fn is_prefix(a: Seq<Seq<char>>, b: Seq<Seq<char>>) -> bool {
    a.len() <= b.len() && b.subrange(0, a.len() as int) == a
}

/// The component views of a sequence of paths.
pub open spec fn paths_of(v: Seq<Vec<String>>) -> Seq<Seq<Seq<char>>> {
    v.map_values(|p: Vec<String>| names_of(p@))
}

/// No path of `v` lies inside, or is, another path of `v`.
pub open spec fn no_nesting(v: Seq<Seq<Seq<char>>>) -> bool {
    forall|i: int, j: int|
        0 <= i < v.len() && 0 <= j < v.len() && i != j ==> !is_prefix(#[trigger] v[i], #[trigger] v[j])
}

/// Whether the path `a` is the path `b` or one of its ancestors.
pub fn path_is_prefix(a: &Vec<String>, b: &Vec<String>) -> (r: bool)
    ensures
        r == is_prefix(names_of(a@), names_of(b@)),
{
    let ghost na = names_of(a@);
    let ghost nb = names_of(b@);
    assert(na.len() == a@.len() && nb.len() == b@.len());
    if a.len() > b.len() {
        return false;
    }
    let mut i: usize = 0;
    while i < a.len()
        invariant
            i <= a@.len() <= b@.len(),
            na == names_of(a@),
            nb == names_of(b@),
            na.len() == a@.len() && nb.len() == b@.len(),
            forall|j: int| 0 <= j < i ==> #[trigger] na[j] == nb[j],
        decreases a@.len() - i,
    {
        assert(na[i as int] == a@[i as int]@ && nb[i as int] == b@[i as int]@);
        if !same_text(a[i].as_str(), b[i].as_str()) {
            assert(nb.subrange(0, na.len() as int)[i as int] == nb[i as int]);
            return false;
        }
        i = i + 1;
    }
    assert(nb.subrange(0, na.len() as int) =~= na);
    true
}

/// The path `dir` extended by the entry `name`.
pub fn child_path(dir: &Vec<String>, name: &String) -> (r: Vec<String>)
    ensures
        names_of(r@) == names_of(dir@).push(name@),
{
    let mut r: Vec<String> = Vec::new();
    let mut i: usize = 0;
    while i < dir.len()
        invariant
            i <= dir@.len(),
            r@.len() == i,
            forall|j: int| 0 <= j < i ==> #[trigger] r@[j]@ == dir@[j]@,
        decreases dir@.len() - i,
    {
        r.push(String::from_str(dir[i].as_str()));
        i = i + 1;
    }
    r.push(String::from_str(name.as_str()));
    assert(names_of(r@) =~= names_of(dir@).push(name@));
    r
}

/// An entry of a listed directory.
pub struct Child {
    pub name: String,
    pub is_dir: bool,
}

/// A directory that the walk matched: its path below the starting directory,
/// the rule that claimed it, and whether it is to be removed.
pub struct Found {
    pub path: Vec<String>,
    pub rule: usize,
    pub remove: bool,
}

/// The names of the entries of a listing.
pub open spec fn child_names(children: Seq<Child>) -> Seq<Seq<char>> {
    children.map_values(|c: Child| c.name@)
}

/// `f` is the match of the entry `c` of the directory `dir`, whose entries are
/// named `entries`, under the rules `rules`.
pub open spec fn found_for(
    f: Found,
    c: Child,
    dir: Seq<Seq<char>>,
    rules: Seq<RuleView>,
    entries: Seq<Seq<char>>,
    force: bool,
) -> bool {
    &&& c.is_dir
    &&& names_of(f.path@) == dir.push(c.name@)
    &&& f.remove == force
    &&& visit_spec(
        rules,
        c.name@,
        entries,
        false,
        force,
        if force {
            Visit::Remove { rule: f.rule }
        } else {
            Visit::Report { rule: f.rule }
        },
    )
}

/// Each of `found` is the match of some entry of `children`.
pub open spec fn all_found(
    found: Seq<Found>,
    children: Seq<Child>,
    dir: Seq<Seq<char>>,
    rules: Seq<RuleView>,
    force: bool,
) -> bool {
    forall|k: int| 0 <= k < found.len() ==> found_in(#[trigger] found[k], children, dir, rules, force)
}

/// `f` is the match of some entry of `children`.
pub open spec fn found_in(
    f: Found,
    children: Seq<Child>,
    dir: Seq<Seq<char>>,
    rules: Seq<RuleView>,
    force: bool,
) -> bool {
    exists|i: int|
        0 <= i < children.len() && #[trigger] found_for(f, children[i], dir, rules, child_names(children), force)
}

proof fn lemma_all_found_push(
    found: Seq<Found>,
    f: Found,
    i: int,
    children: Seq<Child>,
    dir: Seq<Seq<char>>,
    rules: Seq<RuleView>,
    force: bool,
)
    requires
        all_found(found, children, dir, rules, force),
        0 <= i < children.len(),
        found_for(f, children[i], dir, rules, child_names(children), force),
    ensures
        all_found(found.push(f), children, dir, rules, force),
{
    let g = found.push(f);
    assert forall|k: int| 0 <= k < g.len() implies found_in(#[trigger] g[k], children, dir, rules, force) by {
        if k < found.len() {
            assert(g[k] == found[k]);
        } else {
            assert(g[k] == f);
        }
    }
}

/// The path `p` is one of `claimed` or lies inside one of them.
pub open spec fn covered(claimed: Seq<Seq<Seq<char>>>, p: Seq<Seq<char>>) -> bool {
    exists|j: int| 0 <= j < claimed.len() && is_prefix(#[trigger] claimed[j], p)
}

/// One of the two paths is the other or lies inside it.
pub open spec fn related(a: Seq<Seq<char>>, b: Seq<Seq<char>>) -> bool {
    is_prefix(a, b) || is_prefix(b, a)
}

/// The entry `c` of the directory `dir` (whose entries are named `entries`)
/// is taken care of by a walk that has matched `claimed` and has `pending`
/// still to list: it is no directory, or a hidden one, or one that no rule
/// claims and that is queued, or one that a rule claims and that is covered by
/// a match (itself, or a match that contains it or lies within it).
pub open spec fn handled(
    claimed: Seq<Seq<Seq<char>>>,
    pending: Seq<Seq<Seq<char>>>,
    dir: Seq<Seq<char>>,
    c: Child,
    rules: Seq<RuleView>,
    entries: Seq<Seq<char>>,
) -> bool {
    let p = dir.push(c.name@);
    ||| !c.is_dir
    ||| skipped_hidden(c.name@)
    ||| no_match(rules, c.name@, entries) && pending.contains(p)
    ||| !no_match(rules, c.name@, entries) && exists|j: int|
        0 <= j < claimed.len() && related(#[trigger] claimed[j], p)
}

proof fn lemma_handled_grows(
    cl1: Seq<Seq<Seq<char>>>,
    pe1: Seq<Seq<Seq<char>>>,
    cl2: Seq<Seq<Seq<char>>>,
    pe2: Seq<Seq<Seq<char>>>,
    dir: Seq<Seq<char>>,
    c: Child,
    rules: Seq<RuleView>,
    entries: Seq<Seq<char>>,
)
    requires
        handled(cl1, pe1, dir, c, rules, entries),
        cl1.len() <= cl2.len() && cl2.subrange(0, cl1.len() as int) == cl1,
        pe1.len() <= pe2.len() && pe2.subrange(0, pe1.len() as int) == pe1,
    ensures
        handled(cl2, pe2, dir, c, rules, entries),
{
    let p = dir.push(c.name@);
    if c.is_dir && !skipped_hidden(c.name@) {
        if no_match(rules, c.name@, entries) {
            let k = choose|k: int| 0 <= k < pe1.len() && pe1[k] == p;
            assert(pe2[k] == pe2.subrange(0, pe1.len() as int)[k]);
        } else {
            let j = choose|j: int| 0 <= j < cl1.len() && related(#[trigger] cl1[j], p);
            assert(cl2[j] == cl2.subrange(0, cl1.len() as int)[j]);
        }
    }
}

/// The state of a walk: the directories still to be listed and those matched so
/// far, each as its path below the starting directory.
pub struct Walker {
    rules: Vec<CleanRule>,
    force: bool,
    pending: Vec<Vec<String>>,
    claimed: Vec<Vec<String>>,
}

impl Walker {
    /// The paths matched so far.
    pub closed spec fn claimed_paths(&self) -> Seq<Seq<Seq<char>>> {
        paths_of(self.claimed@)
    }

    /// The rules the walk applies.
    pub closed spec fn rule_table(&self) -> Seq<RuleView> {
        rule_views(self.rules@)
    }

    /// Whether the walk removes what it matches.
    pub closed spec fn removing(&self) -> bool {
        self.force
    }

    /// The directories still to be listed.
    pub closed spec fn pending_paths(&self) -> Seq<Seq<Seq<char>>> {
        paths_of(self.pending@)
    }

    /// The number of directories still to be listed.
    pub closed spec fn pending_count(&self) -> nat {
        self.pending@.len()
    }

    /// No matched directory lies inside another.
    pub open spec fn wf(&self) -> bool {
        no_nesting(self.claimed_paths())
    }

    /// Starts a walk at a directory named `name` whose parent holds
    /// `parent_entries`. The decision on the starting directory is returned;
    /// where it is entered it is the one directory to list, where it is matched
    /// it is the one match and nothing is listed.
    pub fn start(rules: Vec<CleanRule>, force: bool, name: &str, parent_entries: &Vec<String>) -> (r: (Walker, Visit))
        ensures
            visit_spec(rule_views(rules@), name@, names_of(parent_entries@), true, force, r.1),
            r.0.wf(),
            r.0.rule_table() == rule_views(rules@),
            r.0.removing() == force,
            r.0.pending_paths() == (if r.1 is Descend { seq![Seq::<Seq<char>>::empty()] } else {
                Seq::<Seq<Seq<char>>>::empty()
            }),
            r.0.claimed_paths() == (if r.1 is Descend { Seq::<Seq<Seq<char>>>::empty() } else {
                seq![Seq::<Seq<char>>::empty()]
            }),
    {
        let v = plan_directory(&rules, name, parent_entries, true, force);
        let mut w = Walker { rules, force, pending: Vec::new(), claimed: Vec::new() };
        match v {
            Visit::Descend => {
                w.pending.push(Vec::new());
                assert(w.claimed_paths() =~= Seq::<Seq<Seq<char>>>::empty());
                assert(names_of(w.pending@[0]@) =~= Seq::<Seq<char>>::empty());
                assert(w.pending_paths() =~= seq![Seq::<Seq<char>>::empty()]);
            },
            _ => {
                w.claimed.push(Vec::new());
                assert(names_of(w.claimed@[0]@) =~= Seq::<Seq<char>>::empty());
                assert(w.claimed_paths() =~= seq![Seq::<Seq<char>>::empty()]);
                assert(w.pending_paths() =~= Seq::<Seq<Seq<char>>>::empty());
            },
        }
        (w, v)
    }

    /// Takes the next directory to list. A directory that lies inside a matched
    /// one is dropped instead of handed out; `None` means the walk is over.
    pub fn next_dir(&mut self) -> (r: Option<Vec<String>>)
        requires
            old(self).wf(),
        ensures
            final(self).wf(),
            final(self).claimed_paths() == old(self).claimed_paths(),
            final(self).rule_table() == old(self).rule_table(),
            final(self).removing() == old(self).removing(),
            final(self).pending_count() <= old(self).pending_count(),
            final(self).pending_paths() == old(self).pending_paths().subrange(
                0,
                final(self).pending_count() as int,
            ),
            r is None ==> final(self).pending_count() == 0,
            r matches Some(p) ==> {
                &&& final(self).pending_count() < old(self).pending_count()
                &&& names_of(p@) == old(self).pending_paths()[final(self).pending_count() as int]
                &&& !covered(final(self).claimed_paths(), names_of(p@))
            },
            forall|m: int|
                (if r is Some {
                    final(self).pending_count() + 1int
                } else {
                    final(self).pending_count() as int
                }) <= m < old(self).pending_count() ==> covered(
                    old(self).claimed_paths(),
                    #[trigger] old(self).pending_paths()[m],
                ),
    {
        let ghost pe0 = self.pending_paths();
        assert(pe0.len() == self.pending@.len());
        assert(pe0.subrange(0, pe0.len() as int) =~= pe0);
        while self.pending.len() > 0
            invariant
                self.wf(),
                self.claimed_paths() == old(self).claimed_paths(),
                self.rule_table() == old(self).rule_table(),
                self.removing() == old(self).removing(),
                pe0 == old(self).pending_paths(),
                pe0.len() == old(self).pending_count(),
                self.pending_count() <= old(self).pending_count(),
                self.pending_paths() == pe0.subrange(0, self.pending@.len() as int),
                forall|m: int|
                    self.pending@.len() <= m < pe0.len() ==> covered(
                        old(self).claimed_paths(),
                        #[trigger] pe0[m],
                    ),
            decreases self.pending@.len(),
        {
            let ghost before = self.pending@;
            let p = self.pending.pop().unwrap();
            proof {
                assert(before == self.pending@.push(p));
                assert(pe0[self.pending@.len() as int] == paths_of(before)[self.pending@.len() as int]);
                assert(self.pending_paths() =~= pe0.subrange(0, self.pending@.len() as int));
            }
            if !self.inside_claimed(&p) {
                return Some(p);
            }
        }
        None
    }

    fn inside_claimed(&self, p: &Vec<String>) -> (r: bool)
        ensures
            r == covered(self.claimed_paths(), names_of(p@)),
    {
        let ghost cs = self.claimed_paths();
        assert(cs.len() == self.claimed@.len());
        let mut i: usize = 0;
        while i < self.claimed.len()
            invariant
                i <= self.claimed@.len() == cs.len(),
                cs == paths_of(self.claimed@),
                cs == self.claimed_paths(),
                forall|j: int| 0 <= j < i ==> !is_prefix(#[trigger] cs[j], names_of(p@)),
            decreases self.claimed@.len() - i,
        {
            assert(cs[i as int] == names_of(self.claimed@[i as int]@));
            if path_is_prefix(&self.claimed[i], p) {
                return true;
            }
            i = i + 1;
        }
        false
    }

    /// Records `path` as matched unless it is, contains or lies inside a
    /// directory matched before; says whether it was recorded.
    fn claim(&mut self, path: &Vec<String>) -> (r: bool)
        requires
            old(self).wf(),
        ensures
            final(self).wf(),
            final(self).rules == old(self).rules,
            final(self).force == old(self).force,
            final(self).pending == old(self).pending,
            r ==> final(self).claimed_paths() == old(self).claimed_paths().push(names_of(path@)),
            !r ==> final(self).claimed_paths() == old(self).claimed_paths(),
            !r ==> exists|j: int|
                0 <= j < old(self).claimed_paths().len() && related(
                    #[trigger] old(self).claimed_paths()[j],
                    names_of(path@),
                ),
    {
        let ghost cs = self.claimed_paths();
        assert(cs.len() == self.claimed@.len());
        let mut i: usize = 0;
        while i < self.claimed.len()
            invariant
                i <= self.claimed@.len() == cs.len(),
                cs == paths_of(self.claimed@),
                self.wf(),
                self.claimed == old(self).claimed,
                self.rules == old(self).rules,
                self.force == old(self).force,
                self.pending == old(self).pending,
                forall|j: int|
                    0 <= j < i ==> !is_prefix(#[trigger] cs[j], names_of(path@)) && !is_prefix(
                        names_of(path@),
                        cs[j],
                    ),
            decreases self.claimed@.len() - i,
        {
            assert(cs[i as int] == names_of(self.claimed@[i as int]@));
            if path_is_prefix(&self.claimed[i], path) || path_is_prefix(path, &self.claimed[i]) {
                assert(related(cs[i as int], names_of(path@)));
                return false;
            }
            i = i + 1;
        }
        let ghost before = self.claimed@;
        self.claimed.push(copy_path(path));
        proof {
            assert(self.claimed@ == before.push(self.claimed@.last()));
            assert(paths_of(self.claimed@) =~= cs.push(names_of(path@)));
        }
        true
    }

    /// Takes the listing of `dir`, a directory handed out by `next_dir`: each
    /// entry that is a directory is decided by `plan_directory`; one to enter
    /// is queued, one that a rule claims is recorded and returned unless it
    /// is already covered by a match.
    pub fn visit_listing(&mut self, dir: &Vec<String>, children: &Vec<Child>) -> (r: Vec<Found>)
        requires
            old(self).wf(),
        ensures
            final(self).wf(),
            final(self).rule_table() == old(self).rule_table(),
            final(self).removing() == old(self).removing(),
            final(self).claimed_paths() == old(self).claimed_paths() + paths_of(
                r@.map_values(|f: Found| f.path),
            ),
            all_found(r@, children@, names_of(dir@), old(self).rule_table(), old(self).removing()),
            forall|k: int|
                0 <= k < children@.len() ==> handled(
                    final(self).claimed_paths(),
                    final(self).pending_paths(),
                    names_of(dir@),
                    #[trigger] children@[k],
                    old(self).rule_table(),
                    child_names(children@),
                ),
    {
        let mut entries: Vec<String> = Vec::new();
        let mut i: usize = 0;
        while i < children.len()
            invariant
                i <= children@.len(),
                entries@.len() == i,
                forall|j: int| 0 <= j < i ==> #[trigger] entries@[j]@ == children@[j].name@,
            decreases children@.len() - i,
        {
            entries.push(String::from_str(children[i].name.as_str()));
            i = i + 1;
        }
        assert(names_of(entries@) =~= child_names(children@));
        let mut found: Vec<Found> = Vec::new();
        let ghost claimed0 = self.claimed_paths();
        let mut i: usize = 0;
        while i < children.len()
            invariant
                i <= children@.len(),
                self.wf(),
                self.rule_table() == old(self).rule_table(),
                self.removing() == old(self).removing(),
                claimed0 == old(self).claimed_paths(),
                names_of(entries@) == child_names(children@),
                self.claimed_paths() == claimed0 + paths_of(found@.map_values(|f: Found| f.path)),
                all_found(found@, children@, names_of(dir@), old(self).rule_table(), old(self).removing()),
                forall|k: int|
                    0 <= k < i ==> handled(
                        self.claimed_paths(),
                        self.pending_paths(),
                        names_of(dir@),
                        #[trigger] children@[k],
                        old(self).rule_table(),
                        child_names(children@),
                    ),
            decreases children@.len() - i,
        {
            let ghost cl_before = self.claimed_paths();
            let ghost pe_before = self.pending_paths();
            let ghost pending_before = self.pending@;
            let c = &children[i];
            if c.is_dir {
                let v = plan_directory(&self.rules, c.name.as_str(), &entries, false, self.force);
                let p = child_path(dir, &c.name);
                match v {
                    Visit::Descend => {
                        let ghost pp = names_of(p@);
                        self.pending.push(p);
                        proof {
                            assert(self.pending@ == pending_before.push(self.pending@.last()));
                            assert(self.pending_paths() =~= pe_before.push(pp));
                            assert(self.pending_paths()[pe_before.len() as int] == pp);
                        }
                    },
                    Visit::Skip => {},
                    Visit::Report { rule } => {
                        let ghost old_found = found@;
                        if self.claim(&p) {
                            found.push(Found { path: p, rule, remove: false });
                            proof {
                                assert(found_for(found@.last(), children@[i as int], names_of(dir@), old(self).rule_table(), child_names(children@), old(self).removing()));
                                assert(paths_of(found@.map_values(|f: Found| f.path)) =~= paths_of(
                                    old_found.map_values(|f: Found| f.path),
                                ).push(names_of(found@.last().path@)));
                                assert(found@[found@.len() - 1] == found@.last());
                                lemma_all_found_push(old_found, found@.last(), i as int, children@, names_of(dir@), old(self).rule_table(), old(self).removing());
                                assert(found@ == old_found.push(found@.last()));
                            }
                        }
                    },
                    Visit::Remove { rule } => {
                        let ghost old_found = found@;
                        if self.claim(&p) {
                            found.push(Found { path: p, rule, remove: true });
                            proof {
                                assert(found_for(found@.last(), children@[i as int], names_of(dir@), old(self).rule_table(), child_names(children@), old(self).removing()));
                                assert(paths_of(found@.map_values(|f: Found| f.path)) =~= paths_of(
                                    old_found.map_values(|f: Found| f.path),
                                ).push(names_of(found@.last().path@)));
                                assert(found@[found@.len() - 1] == found@.last());
                                lemma_all_found_push(old_found, found@.last(), i as int, children@, names_of(dir@), old(self).rule_table(), old(self).removing());
                                assert(found@ == old_found.push(found@.last()));
                            }
                        }
                    },
                }
            }
            proof {
                let cl = self.claimed_paths();
                let pe = self.pending_paths();
                assert(cl.subrange(0, cl_before.len() as int) =~= cl_before);
                assert(pe.subrange(0, pe_before.len() as int) =~= pe_before);
                assert forall|k: int| 0 <= k < i implies handled(
                    cl,
                    pe,
                    names_of(dir@),
                    #[trigger] children@[k],
                    old(self).rule_table(),
                    child_names(children@),
                ) by {
                    lemma_handled_grows(
                        cl_before,
                        pe_before,
                        cl,
                        pe,
                        names_of(dir@),
                        children@[k],
                        old(self).rule_table(),
                        child_names(children@),
                    );
                }
                let cp = names_of(dir@).push(children@[i as int].name@);
                if cl.len() > cl_before.len() {
                    assert(is_prefix(cl[cl.len() - 1], cp)) by {
                        assert(cp.subrange(0, cp.len() as int) =~= cp);
                    }
                }
            }
            i = i + 1;
        }
        found
    }
}

/// A copy of the path `p`.
fn copy_path(p: &Vec<String>) -> (r: Vec<String>)
    ensures
        names_of(r@) == names_of(p@),
{
    let mut r: Vec<String> = Vec::new();
    let mut i: usize = 0;
    while i < p.len()
        invariant
            i <= p@.len(),
            r@.len() == i,
            forall|j: int| 0 <= j < i ==> #[trigger] r@[j]@ == p@[j]@,
        decreases p@.len() - i,
    {
        r.push(String::from_str(p[i].as_str()));
        i = i + 1;
    }
    assert(names_of(r@) =~= names_of(p@));
    r
}

} // verus!
