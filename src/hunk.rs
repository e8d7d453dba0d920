use vstd::prelude::*;

verus! {

/// Type of change in a hunk.
#[derive(Debug, Clone, Copy, PartialEq, Eq, Structural)]
pub enum HunkType {
    /// Lines only in the new version.
    Add,
    /// Lines only in the old version.
    Delete,
    /// Lines present on both sides.
    Change,
}

/// The classification rule: a pure function of the two line counts.
pub open spec fn kind_of(old_count: nat, new_count: nat) -> HunkType {
    if old_count == 0 {
        HunkType::Add
    } else if new_count == 0 {
        HunkType::Delete
    } else {
        HunkType::Change
    }
}

/// Classifies a hunk from its old and new line counts.
pub fn classify(old_count: u32, new_count: u32) -> (r: HunkType)
    ensures
        r == kind_of(old_count as nat, new_count as nat),
{
    if old_count == 0 {
        HunkType::Add
    } else if new_count == 0 {
        HunkType::Delete
    } else {
        HunkType::Change
    }
}

/// A contiguous block of changes in a diff.
#[derive(Debug, Clone)]
pub struct Hunk {
    /// Line in the new file where the hunk starts (1-indexed).
    pub start: u32,
    /// Number of lines in the new version.
    pub count: u32,
    /// Line in the old file where the hunk starts.
    pub old_start: u32,
    /// Number of lines in the old version.
    pub old_count: u32,
    /// The old-version lines the hunk covers, for an inline preview.
    pub old_lines: Vec<String>,
    /// Type of change.
    pub hunk_type: HunkType,
}

impl Hunk {
    /// A hunk holds one old line per counted old line, and its type follows
    /// from its counts. Both counts zero is a degenerate hunk that never occurs.
    pub open spec fn wf(&self) -> bool {
        &&& self.old_lines@.len() == self.old_count as nat
        &&& !(self.old_count == 0 && self.count == 0)
        &&& self.hunk_type == kind_of(self.old_count as nat, self.count as nat)
    }

    /// Builds a hunk from its addressing and its old lines; the type is
    /// derived from the counts.
    pub fn new(start: u32, count: u32, old_start: u32, old_count: u32, old_lines: Vec<String>) -> (r: Hunk)
        requires
            old_lines@.len() == old_count as nat,
            !(old_count == 0 && count == 0),
        ensures
            r.wf(),
            r.start == start,
            r.count == count,
            r.old_start == old_start,
            r.old_count == old_count,
            r.old_lines == old_lines,
    {
        let hunk_type = classify(old_count, count);
        Hunk { start, count, old_start, old_count, old_lines, hunk_type }
    }
}

/// Of every well-formed hunk: it is an addition exactly when it has no old
/// lines, a deletion exactly when it has no new lines, and a change otherwise.
pub proof fn lemma_kind_follows_counts(h: Hunk)
    requires
        h.wf(),
    ensures
        (h.hunk_type == HunkType::Add) <==> (h.old_count == 0),
        (h.hunk_type == HunkType::Delete) <==> (h.count == 0),
        (h.hunk_type == HunkType::Change) <==> (h.old_count != 0 && h.count != 0),
{
}

/// Of every well-formed hunk: it carries exactly as many old lines as its old count.
pub proof fn lemma_old_lines_match_count(h: Hunk)
    requires
        h.wf(),
    ensures
        h.old_lines@.len() == h.old_count as nat,
{
}

/// Hunks in file order: ascending start line in the new version.
pub open spec fn sorted_by_start(hunks: Seq<Hunk>) -> bool {
    forall|i: int, j: int| 0 <= i < j < hunks.len() ==> hunks[i].start <= hunks[j].start
}

/// Tells whether hunks stand in ascending order of their new-version start line.
pub fn is_sorted_by_start(hunks: &Vec<Hunk>) -> (r: bool)
    ensures
        r == sorted_by_start(hunks@),
{
    let n = hunks.len();
    if n < 2 {
        return true;
    }
    let mut i: usize = 1;
    while i < n
        invariant
            1 <= i <= n,
            n == hunks@.len(),
            sorted_by_start(hunks@.subrange(0, i as int)),
        decreases n - i,
    {
        if hunks[i - 1].start > hunks[i].start {
            return false;
        }
        assert(sorted_by_start(hunks@.subrange(0, i + 1))) by {
            let s = hunks@.subrange(0, i + 1);
            assert forall|a: int, b: int| 0 <= a < b < s.len() implies s[a].start <= s[b].start by {
                if b < i {
                    assert(hunks@.subrange(0, i as int)[a] == s[a]);
                    assert(hunks@.subrange(0, i as int)[b] == s[b]);
                } else if a < i - 1 {
                    assert(hunks@.subrange(0, i as int)[a] == s[a]);
                    assert(hunks@.subrange(0, i as int)[i - 1] == s[i - 1]);
                }
            }
        }
        i = i + 1;
    }
    assert(hunks@.subrange(0, n as int) =~= hunks@);
    true
}

} // verus!
