use vstd::prelude::*;

verus! {

/// Index of the last `'.'` in `s`, or -1 where there is none.
pub open spec fn last_dot(s: Seq<char>) -> int
    decreases s.len(),
{
    if s.len() == 0 {
        -1
    } else if s.last() == '.' {
        s.len() - 1
    } else {
        last_dot(s.drop_last())
    }
}

/// The extension of a file name, as a path's extension is read: the text after
/// the last dot, where that dot is not the first character and the name is not `..`.
pub open spec fn extension_of(name: Seq<char>) -> Option<Seq<char>> {
    let k = last_dot(name);
    if k <= 0 || name == seq!['.', '.'] {
        None
    } else {
        Some(name.subrange(k + 1, name.len() as int))
    }
}

/// The extension named by a `*.ext` pattern, if the pattern has that shape.
pub open spec fn glob_extension(pattern: Seq<char>) -> Option<Seq<char>> {
    if pattern.len() >= 2 && pattern[0] == '*' && pattern[1] == '.' {
        Some(pattern.skip(2))
    } else {
        None
    }
}

/// Whether a project indicator holds in a directory whose direct entries are
/// named `entries`. A pattern with a `*` is a glob: `*.ext` holds where some
/// entry has the extension `ext` (any other glob never holds). A pattern without
/// one is a file name that must be among the entries.
pub open spec fn indicator_holds(pattern: Seq<char>, entries: Seq<Seq<char>>) -> bool {
    if pattern.contains('*') {
        match glob_extension(pattern) {
            Some(ext) => exists|i: int| 0 <= i < entries.len() && extension_of(#[trigger] entries[i]) == Some(ext),
            None => false,
        }
    } else {
        exists|i: int| 0 <= i < entries.len() && #[trigger] entries[i] == pattern
    }
}

/// The texts of a sequence of strings.
pub open spec fn names_of(v: Seq<String>) -> Seq<Seq<char>> {
    v.map_values(|e: String| e@)
}

proof fn lemma_last_dot_bounds(s: Seq<char>)
    ensures
        -1 <= last_dot(s) < s.len(),
        last_dot(s) >= 0 ==> s[last_dot(s)] == '.',
        forall|j: int| last_dot(s) < j < s.len() ==> s[j] != '.',
    decreases s.len(),
{
    if s.len() > 0 && s.last() != '.' {
        let t = s.drop_last();
        lemma_last_dot_bounds(t);
        assert forall|j: int| last_dot(s) < j < s.len() implies s[j] != '.' by {
            if j < s.len() - 1 {
                assert(s[j] == t[j]);
            }
        }
    }
}

/// Position of the last dot in `s`, found from the end.
fn find_last_dot(s: &str) -> (r: Option<usize>)
    ensures
        r == (if last_dot(s@) < 0 { None::<usize> } else { Some(last_dot(s@) as usize) }),
{
    let n = s.unicode_len();
    let mut i: usize = n;
    assert(s@.subrange(0, n as int) =~= s@);
    while i > 0
        invariant
            i <= n == s@.len(),
            last_dot(s@) == last_dot(s@.subrange(0, i as int)),
        decreases i,
    {
        proof {
            assert(s@.subrange(0, i as int).drop_last() =~= s@.subrange(0, i - 1));
        }
        if s.get_char(i - 1) == '.' {
            return Some(i - 1);
        }
        i = i - 1;
    }
    proof {
        assert(s@.subrange(0, 0) =~= Seq::<char>::empty());
    }
    None
}

/// Whether two strings hold the same characters.
pub fn same_text(a: &str, b: &str) -> (r: bool)
    ensures
        r == (a@ == b@),
{
    let n = a.unicode_len();
    if n != b.unicode_len() {
        return false;
    }
    let mut i: usize = 0;
    while i < n
        invariant
            n == a@.len() == b@.len(),
            i <= n,
            forall|j: int| 0 <= j < i ==> a@[j] == b@[j],
        decreases n - i,
    {
        if a.get_char(i) != b.get_char(i) {
            return false;
        }
        i = i + 1;
    }
    assert(a@ =~= b@);
    true
}

/// Whether `s` holds the character `c`.
fn contains_char(s: &str, c: char) -> (r: bool)
    ensures
        r == s@.contains(c),
{
    let n = s.unicode_len();
    let mut i: usize = 0;
    while i < n
        invariant
            n == s@.len(),
            i <= n,
            forall|j: int| 0 <= j < i ==> s@[j] != c,
        decreases n - i,
    {
        if s.get_char(i) == c {
            return true;
        }
        i = i + 1;
    }
    false
}

/// The extension of the file name `name`, read as a path's extension is.
pub fn file_extension(name: &str) -> (r: Option<&str>)
    ensures
        match extension_of(name@) {
            Some(e) => r.is_some() && r.unwrap()@ == e,
            None => r.is_none(),
        },
{
    let n = name.unicode_len();
    proof {
        lemma_last_dot_bounds(name@);
    }
    match find_last_dot(name) {
        None => None,
        Some(k) => {
            if k == 0 {
                return None;
            }
            if n == 2 && name.get_char(0) == '.' && name.get_char(1) == '.' {
                assert(name@ =~= seq!['.', '.']);
                return None;
            }
            proof {
                if name@ == seq!['.', '.'] {
                    assert(name@[0] == '.' && name@[1] == '.');
                }
            }
            Some(name.substring_char(k + 1, n))
        },
    }
}

/// Whether `pattern` holds among the entries `entries` of a directory (see
/// `indicator_holds`).
pub fn matches_indicator(pattern: &str, entries: &Vec<String>) -> (r: bool)
    ensures
        r == indicator_holds(pattern@, names_of(entries@)),
{
    let ghost names = names_of(entries@);
    assert(names.len() == entries@.len());
    if contains_char(pattern, '*') {
        let pn = pattern.unicode_len();
        if pn < 2 {
            return false;
        }
        let c0 = pattern.get_char(0);
        let c1 = pattern.get_char(1);
        if c0 != '*' || c1 != '.' {
            return false;
        }
        let ext = pattern.substring_char(2, pn);
        assert(ext@ =~= pattern@.skip(2));
        assert(glob_extension(pattern@) == Some(ext@));
        let mut i: usize = 0;
        while i < entries.len()
            invariant
                i <= entries@.len(),
                names == names_of(entries@),
                pattern@.contains('*'),
                glob_extension(pattern@) == Some(ext@),
                forall|j: int| 0 <= j < i ==> extension_of(#[trigger] names[j]) != Some(ext@),
            decreases entries@.len() - i,
        {
            assert(names[i as int] == entries@[i as int]@);
            match file_extension(entries[i].as_str()) {
                Some(e) => {
                    if same_text(e, ext) {
                        assert(names[i as int] == entries@[i as int]@);
                        assert(extension_of(names[i as int]) == Some(ext@));
                        return true;
                    }
                },
                None => {},
            }
            i = i + 1;
        }
        false
    } else {
        let mut i: usize = 0;
        while i < entries.len()
            invariant
                i <= entries@.len(),
                names == names_of(entries@),
                !pattern@.contains('*'),
                forall|j: int| 0 <= j < i ==> #[trigger] names[j] != pattern@,
            decreases entries@.len() - i,
        {
            assert(names[i as int] == entries@[i as int]@);
            if same_text(entries[i].as_str(), pattern) {
                assert(names[i as int] == entries@[i as int]@);
                assert(names[i as int] == pattern@);
                return true;
            }
            i = i + 1;
        }
        false
    }
}

} // verus!
