use vstd::prelude::*;
use crate::indicator::same_text;

verus! {

/// Directories that code combining never enters.
pub open spec fn ignored_folder(name: Seq<char>) -> bool {
    name == "node_modules"@ || name == "target"@ || name == "vendor"@ || name == ".git"@ || name == ".svn"@
        || name == ".hg"@ || name == ".idea"@ || name == ".vscode"@ || name == "dist"@ || name == "build"@
        || name == "coverage"@ || name == "__pycache__"@
}

/// Files that code combining never takes.
pub open spec fn ignored_file(name: Seq<char>) -> bool {
    name == "package-lock.json"@ || name == "yarn.lock"@ || name == "pnpm-lock.yaml"@ || name == "Cargo.lock"@
        || name == "composer.lock"@ || name == ".DS_Store"@ || name == "Thumbs.db"@ || name == ".env"@
}

/// Extensions of binary or otherwise unlikely text files.
pub open spec fn binary_extension(ext: Seq<char>) -> bool {
    ext == "png"@ || ext == "jpg"@ || ext == "jpeg"@ || ext == "gif"@ || ext == "ico"@ || ext == "svg"@
        || ext == "woff"@ || ext == "woff2"@ || ext == "ttf"@ || ext == "eot"@ || ext == "mp4"@ || ext
        == "webm"@ || ext == "zip"@ || ext == "tar"@ || ext == "gz"@ || ext == "exe"@ || ext == "dll"@
        || ext == "so"@ || ext == "dylib"@ || ext == "class"@ || ext == "pyc"@
}

/// `s` ends with `suffix`.
pub open spec fn ends_with(s: Seq<char>, suffix: Seq<char>) -> bool {
    suffix.len() <= s.len() && s.subrange(s.len() - suffix.len(), s.len() as int) == suffix
}

/// Names of text files without extension that are worth taking.
pub open spec fn known_text_file(name: Seq<char>) -> bool {
    ends_with(name, "Makefile"@) || ends_with(name, "Dockerfile"@) || ends_with(name, "LICENSE"@)
        || ends_with(name, "README"@)
}

/// `s` starts with a dot.
pub open spec fn dotted(s: Seq<char>) -> bool {
    s.len() > 0 && s[0] == '.'
}

/// Whether a walk for code combining takes the entry `name` at `depth` (the
/// starting directory is depth 0): the start always, hidden entries never, and
/// directories only when not ignored.
pub open spec fn enter_spec(name: Seq<char>, depth: usize, is_dir: bool) -> bool {
    if depth == 0 {
        true
    } else if dotted(name) {
        false
    } else if is_dir {
        !ignored_folder(name)
    } else {
        true
    }
}

/// Whether a file named `name` with extension `ext` is combined, under the
/// extension lists `wanted` (empty: any) and `exclude`.
pub open spec fn take_spec(
    name: Seq<char>,
    ext: Option<Seq<char>>,
    wanted: Seq<Seq<char>>,
    exclude: Seq<Seq<char>>,
) -> bool {
    if ignored_file(name) || dotted(name) {
        false
    } else {
        match ext {
            Some(e) => {
                &&& (wanted.len() == 0 || wanted.contains(e))
                &&& !exclude.contains(e)
                &&& !binary_extension(e)
            },
            None => wanted.len() == 0 || known_text_file(name),
        }
    }
}

fn starts_with_dot(s: &str) -> (r: bool)
    ensures
        r == dotted(s@),
{
    s.unicode_len() > 0 && s.get_char(0) == '.'
}

fn text_ends_with(s: &str, suffix: &str) -> (r: bool)
    ensures
        r == ends_with(s@, suffix@),
{
    let n = s.unicode_len();
    let m = suffix.unicode_len();
    if m > n {
        return false;
    }
    let tail = s.substring_char(n - m, n);
    same_text(tail, suffix)
}

fn is_ignored_folder(name: &str) -> (r: bool)
    ensures
        r == ignored_folder(name@),
{
    same_text(name, "node_modules") || same_text(name, "target") || same_text(name, "vendor") || same_text(
        name,
        ".git",
    ) || same_text(name, ".svn") || same_text(name, ".hg") || same_text(name, ".idea") || same_text(
        name,
        ".vscode",
    ) || same_text(name, "dist") || same_text(name, "build") || same_text(name, "coverage") || same_text(
        name,
        "__pycache__",
    )
}

fn is_ignored_file(name: &str) -> (r: bool)
    ensures
        r == ignored_file(name@),
{
    same_text(name, "package-lock.json") || same_text(name, "yarn.lock") || same_text(name, "pnpm-lock.yaml")
        || same_text(name, "Cargo.lock") || same_text(name, "composer.lock") || same_text(name, ".DS_Store")
        || same_text(name, "Thumbs.db") || same_text(name, ".env")
}

fn is_binary_extension(ext: &str) -> (r: bool)
    ensures
        r == binary_extension(ext@),
{
    same_text(ext, "png") || same_text(ext, "jpg") || same_text(ext, "jpeg") || same_text(ext, "gif")
        || same_text(ext, "ico") || same_text(ext, "svg") || same_text(ext, "woff") || same_text(ext, "woff2")
        || same_text(ext, "ttf") || same_text(ext, "eot") || same_text(ext, "mp4") || same_text(ext, "webm")
        || same_text(ext, "zip") || same_text(ext, "tar") || same_text(ext, "gz") || same_text(ext, "exe")
        || same_text(ext, "dll") || same_text(ext, "so") || same_text(ext, "dylib") || same_text(ext, "class")
        || same_text(ext, "pyc")
}

fn is_known_text_file(name: &str) -> (r: bool)
    ensures
        r == known_text_file(name@),
{
    text_ends_with(name, "Makefile") || text_ends_with(name, "Dockerfile") || text_ends_with(name, "LICENSE")
        || text_ends_with(name, "README")
}

fn list_contains(list: &Vec<String>, e: &str) -> (r: bool)
    ensures
        r == list@.map_values(|s: String| s@).contains(e@),
{
    let ghost v = list@.map_values(|s: String| s@);
    let mut i: usize = 0;
    while i < list.len()
        invariant
            i <= list@.len() == v.len(),
            v == list@.map_values(|s: String| s@),
            forall|j: int| 0 <= j < i ==> #[trigger] v[j] != e@,
        decreases list@.len() - i,
    {
        assert(v[i as int] == list@[i as int]@);
        if same_text(list[i].as_str(), e) {
            return true;
        }
        i = i + 1;
    }
    false
}

/// Whether the walk for code combining takes the entry `name` at `depth`.
pub fn enter_entry(name: &str, depth: usize, is_dir: bool) -> (r: bool)
    ensures
        r == enter_spec(name@, depth, is_dir),
{
    if depth == 0 {
        true
    } else if starts_with_dot(name) {
        false
    } else if is_dir {
        !is_ignored_folder(name)
    } else {
        true
    }
}

/// Whether the file named `name` with extension `ext` is combined, under the
/// extension lists `wanted` (empty: any) and `exclude`.
pub fn take_file(name: &str, ext: Option<&str>, wanted: &Vec<String>, exclude: &Vec<String>) -> (r: bool)
    ensures
        r == take_spec(
            name@,
            match ext {
                Some(e) => Some(e@),
                None => None,
            },
            wanted@.map_values(|s: String| s@),
            exclude@.map_values(|s: String| s@),
        ),
{
    if is_ignored_file(name) || starts_with_dot(name) {
        return false;
    }
    match ext {
        Some(e) => {
            if wanted.len() > 0 && !list_contains(wanted, e) {
                return false;
            }
            if list_contains(exclude, e) {
                return false;
            }
            !is_binary_extension(e)
        },
        None => wanted.len() == 0 || is_known_text_file(name),
    }
}

/// A rough token count of `text`: one token per four characters.
pub fn estimate_tokens(text: &str) -> (r: usize)
    ensures
        r == text@.len() / 4,
{
    text.unicode_len() / 4
}

/// The running totals of code combining: files taken, their bytes, their
/// estimated tokens.
#[derive(Clone, Copy, PartialEq, Eq, Debug)]
pub struct CombineStats {
    pub files: u64,
    pub bytes: u64,
    pub tokens: u64,
}

impl CombineStats {
    /// Totals with nothing taken.
    pub fn new() -> (r: CombineStats)
        ensures
            r == (CombineStats { files: 0, bytes: 0, tokens: 0 }),
    {
        CombineStats { files: 0, bytes: 0, tokens: 0 }
    }

    /// Counts one more file of `text`, whose encoded length is `bytes`.
    pub fn add_file(&mut self, text: &str, bytes: u64)
        ensures
            final(self).files == crate::report::sat(old(self).files + 1),
            final(self).bytes == crate::report::sat(old(self).bytes + bytes),
            final(self).tokens == crate::report::sat(old(self).tokens + text@.len() / 4),
    {
        let t = estimate_tokens(text) as u64;
        self.files = if self.files == u64::MAX { u64::MAX } else { self.files + 1 };
        self.bytes = if self.bytes > u64::MAX - bytes { u64::MAX } else { self.bytes + bytes };
        self.tokens = if self.tokens > u64::MAX - t { u64::MAX } else { self.tokens + t };
    }
}

} // verus!
