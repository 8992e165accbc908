use vstd::prelude::*;
use crate::rules::CleanRule;

verus! {

/// `x`, held to the range of a `u64`: counts and byte totals saturate.
pub open spec fn sat(x: int) -> u64 {
    if x > u64::MAX as int {
        u64::MAX
    } else if x < 0 {
        0
    } else {
        x as u64
    }
}

fn sat_add(a: u64, b: u64) -> (r: u64)
    ensures
        r == sat(a + b),
{
    if a > u64::MAX - b {
        u64::MAX
    } else {
        a + b
    }
}

/// What became of one matched directory.
#[derive(Clone, Copy, PartialEq, Eq, Debug)]
pub enum Outcome {
    /// Dry run: reported only.
    Found,
    /// Removed from disk.
    Removed,
    /// Removal was tried and failed.
    RemoveFailed,
}

/// The running totals of a scan: directories matched, directories removed,
/// and the bytes that were (dry run: would be) reclaimed.
#[derive(Clone, Copy, PartialEq, Eq, Debug)]
pub struct ScanResult {
    pub matched: u64,
    pub removed: u64,
    pub bytes: u64,
}

/// The totals after one more match of `size` bytes with the given outcome. A
/// failed removal counts as a match but reclaims nothing.
pub open spec fn record_spec(r: ScanResult, size: u64, outcome: Outcome) -> ScanResult {
    match outcome {
        Outcome::Found => ScanResult { matched: sat(r.matched + 1), removed: r.removed, bytes: sat(r.bytes + size) },
        Outcome::Removed => ScanResult {
            matched: sat(r.matched + 1),
            removed: sat(r.removed + 1),
            bytes: sat(r.bytes + size),
        },
        Outcome::RemoveFailed => ScanResult { matched: sat(r.matched + 1), removed: r.removed, bytes: r.bytes },
    }
}

/// The sum of two partial results, field by field.
pub open spec fn merge_spec(a: ScanResult, b: ScanResult) -> ScanResult {
    ScanResult {
        matched: sat(a.matched + b.matched),
        removed: sat(a.removed + b.removed),
        bytes: sat(a.bytes + b.bytes),
    }
}

/// The totals of a scan whose matches had the given sizes and outcomes, in order.
pub open spec fn tally(events: Seq<(u64, Outcome)>) -> ScanResult
    decreases events.len(),
{
    if events.len() == 0 {
        ScanResult { matched: 0, removed: 0, bytes: 0 }
    } else {
        record_spec(tally(events.drop_last()), events.last().0, events.last().1)
    }
}

impl ScanResult {
    /// Totals with nothing matched.
    pub fn new() -> (r: ScanResult)
        ensures
            r == (ScanResult { matched: 0, removed: 0, bytes: 0 }),
    {
        ScanResult { matched: 0, removed: 0, bytes: 0 }
    }

    /// Adds one match of `size` bytes with the given outcome.
    pub fn record(&mut self, size: u64, outcome: Outcome)
        ensures
            *final(self) == record_spec(*old(self), size, outcome),
    {
        self.matched = sat_add(self.matched, 1);
        match outcome {
            Outcome::Found => {
                self.bytes = sat_add(self.bytes, size);
            },
            Outcome::Removed => {
                self.removed = sat_add(self.removed, 1);
                self.bytes = sat_add(self.bytes, size);
            },
            Outcome::RemoveFailed => {},
        }
    }

    /// The sum of two partial results, as kept by independent workers.
    pub fn merge(&self, other: &ScanResult) -> (r: ScanResult)
        ensures
            r == merge_spec(*self, *other),
    {
        ScanResult {
            matched: sat_add(self.matched, other.matched),
            removed: sat_add(self.removed, other.removed),
            bytes: sat_add(self.bytes, other.bytes),
        }
    }
}

/// Why a scan cannot start at the given path.
#[derive(Clone, Copy, PartialEq, Eq, Debug)]
pub enum PathError {
    /// Nothing exists at the path.
    Missing,
    /// The path exists but is not a directory.
    NotADirectory,
}

/// Checks the starting path of a scan from what the filesystem says of it.
pub fn check_root(exists: bool, is_dir: bool) -> (r: Result<(), PathError>)
    ensures
        !exists ==> r == Err::<(), PathError>(PathError::Missing),
        exists && !is_dir ==> r == Err::<(), PathError>(PathError::NotADirectory),
        exists && is_dir ==> r is Ok,
{
    if !exists {
        Err(PathError::Missing)
    } else if !is_dir {
        Err(PathError::NotADirectory)
    } else {
        Ok(())
    }
}

/// The outcome of a match: found in a dry run, otherwise removed or not as
/// the removal went.
pub fn outcome_of(remove: bool, removal_ok: bool) -> (r: Outcome)
    ensures
        !remove ==> r == Outcome::Found,
        remove && removal_ok ==> r == Outcome::Removed,
        remove && !removal_ok ==> r == Outcome::RemoveFailed,
{
    if !remove {
        Outcome::Found
    } else if removal_ok {
        Outcome::Removed
    } else {
        Outcome::RemoveFailed
    }
}

/// The closing line of a scan.
#[derive(Clone, Copy, PartialEq, Eq, Debug)]
pub enum Summary {
    /// Nothing matched.
    Clean,
    /// Dry run: the space that removal would reclaim.
    Potential { bytes: u64 },
    /// Removal: the space reclaimed by the directories actually removed.
    Reclaimed { bytes: u64, folders: u64 },
}

/// The summary of a scan with the totals `r`.
pub open spec fn summary_spec(r: ScanResult, force: bool) -> Summary {
    if r.matched == 0 {
        Summary::Clean
    } else if force {
        Summary::Reclaimed { bytes: r.bytes, folders: r.removed }
    } else {
        Summary::Potential { bytes: r.bytes }
    }
}

/// The summary of a scan with the totals `result`.
pub fn summarize(result: &ScanResult, force: bool) -> (r: Summary)
    ensures
        r == summary_spec(*result, force),
{
    if result.matched == 0 {
        Summary::Clean
    } else if force {
        Summary::Reclaimed { bytes: result.bytes, folders: result.removed }
    } else {
        Summary::Potential { bytes: result.bytes }
    }
}

/// The sum of the lengths of the files under a directory; an entry that is no
/// regular file, or could not be read, is given as `None` and adds nothing.
pub open spec fn size_sum(lens: Seq<Option<u64>>) -> int
    decreases lens.len(),
{
    if lens.len() == 0 {
        0
    } else {
        size_sum(lens.drop_last()) + match lens.last() {
            Some(n) => n as int,
            None => 0,
        }
    }
}

proof fn lemma_size_sum_nonneg(lens: Seq<Option<u64>>)
    ensures
        size_sum(lens) >= 0,
    decreases lens.len(),
{
    if lens.len() > 0 {
        lemma_size_sum_nonneg(lens.drop_last());
    }
}

/// The size of a directory from the lengths of what lies under it (see
/// `size_sum`), held to the range of a `u64`.
pub fn total_size(lens: &Vec<Option<u64>>) -> (r: u64)
    ensures
        r == sat(size_sum(lens@)),
{
    let mut total: u64 = 0;
    let mut i: usize = 0;
    while i < lens.len()
        invariant
            i <= lens@.len(),
            total == sat(size_sum(lens@.subrange(0, i as int))),
        decreases lens@.len() - i,
    {
        proof {
            let s = lens@.subrange(0, i + 1);
            assert(s.drop_last() =~= lens@.subrange(0, i as int));
            lemma_size_sum_nonneg(lens@.subrange(0, i as int));
        }
        match lens[i] {
            Some(n) => {
                total = sat_add(total, n);
            },
            None => {},
        }
        i = i + 1;
    }
    assert(lens@.subrange(0, lens@.len() as int) =~= lens@);
    total
}

/// The human-readable form of a byte count, as the `bytesize` crate renders it.
pub uninterp spec fn byte_size_text(bytes: u64) -> Seq<char>;

/// Relies on `bytesize::ByteSize`'s `Display`: a rendering that depends on the
/// byte count alone.
#[verifier::external_body]
fn human_size(bytes: u64) -> (r: String)
    ensures
        r@ == byte_size_text(bytes),
{
    bytesize::ByteSize(bytes).to_string()
}

/// The line reported for one matched directory: the rule's folder name and
/// label, the size, and that size in readable form.
pub struct MatchLine {
    pub folder_name: String,
    pub description: String,
    pub size: u64,
    pub size_text: String,
}

/// Describes a directory of `size` bytes that `rule` matched.
pub fn describe_match(rule: &CleanRule, size: u64) -> (r: MatchLine)
    ensures
        r.folder_name@ == rule.folder_name@,
        r.description@ == rule.description@,
        r.size == size,
        r.size_text@ == byte_size_text(size),
{
    MatchLine {
        folder_name: String::from_str(rule.folder_name.as_str()),
        description: String::from_str(rule.description.as_str()),
        size,
        size_text: human_size(size),
    }
}

impl Summary {
    /// The byte count of the summary in readable form; `None` when nothing matched.
    pub fn size_label(&self) -> (r: Option<String>)
        ensures
            match *self {
                Summary::Clean => r is None,
                Summary::Potential { bytes } => r matches Some(t) && t@ == byte_size_text(bytes),
                Summary::Reclaimed { bytes, .. } => r matches Some(t) && t@ == byte_size_text(bytes),
            },
    {
        match self {
            Summary::Clean => None,
            Summary::Potential { bytes } => Some(human_size(*bytes)),
            Summary::Reclaimed { bytes, .. } => Some(human_size(*bytes)),
        }
    }
}

} // verus!
