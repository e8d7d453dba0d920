use vstd::prelude::*;
use vstd::string::StringExecFns;

use crate::hunk::{is_sorted_by_start, sorted_by_start, Hunk};
use crate::patch::{lines_of, parse_patch, patch_hunks, view_of, HunkView};

verus! {

broadcast use vstd::string::group_string_axioms;

/// The decimal digit character of `d`.
pub open spec fn digit_char(d: nat) -> char {
    if d == 0 { '0' }
    else if d == 1 { '1' }
    else if d == 2 { '2' }
    else if d == 3 { '3' }
    else if d == 4 { '4' }
    else if d == 5 { '5' }
    else if d == 6 { '6' }
    else if d == 7 { '7' }
    else if d == 8 { '8' }
    else { '9' }
}

/// The decimal notation of `n`, without leading zeros.
pub open spec fn decimal(n: nat) -> Seq<char>
    decreases n,
{
    if n < 10 {
        seq![digit_char(n)]
    } else {
        decimal(n / 10) + seq![digit_char(n % 10)]
    }
}

/// The canonical web address of pull request `number` of `owner`/`repo`.
pub open spec fn pr_url_of(owner: Seq<char>, repo: Seq<char>, number: nat) -> Seq<char> {
    "https://github.com/"@ + owner + "/"@ + repo + "/pull/"@ + decimal(number)
}

fn digit_str(d: u64) -> (r: &'static str)
    requires
        d < 10,
    ensures
        r@ == seq![digit_char(d as nat)],
{
    proof {
        reveal_strlit("0");
        reveal_strlit("1");
        reveal_strlit("2");
        reveal_strlit("3");
        reveal_strlit("4");
        reveal_strlit("5");
        reveal_strlit("6");
        reveal_strlit("7");
        reveal_strlit("8");
        reveal_strlit("9");
    }
    if d == 0 { "0" }
    else if d == 1 { "1" }
    else if d == 2 { "2" }
    else if d == 3 { "3" }
    else if d == 4 { "4" }
    else if d == 5 { "5" }
    else if d == 6 { "6" }
    else if d == 7 { "7" }
    else if d == 8 { "8" }
    else { "9" }
}

/// Appends the decimal notation of `n` to `s`.
fn push_decimal(s: &mut String, n: u64)
    ensures
        final(s)@ == old(s)@ + decimal(n as nat),
    decreases n,
{
    if n >= 10 {
        push_decimal(s, n / 10);
    }
    s.append(digit_str(n % 10));
    assert(final(s)@ =~= old(s)@ + decimal(n as nat));
}

/// A pull request reference: repository owner, repository name and number.
#[derive(Debug, Clone)]
pub struct PrRef {
    pub owner: String,
    pub repo: String,
    pub number: u64,
}

impl PrRef {
    /// The canonical web address of the referenced pull request.
    pub fn url(&self) -> (r: String)
        ensures
            r@ == pr_url_of(self.owner@, self.repo@, self.number as nat),
    {
        let mut s = String::from_str("https://github.com/");
        s.append(self.owner.as_str());
        s.append("/");
        s.append(self.repo.as_str());
        s.append("/pull/");
        push_decimal(&mut s, self.number);
        s
    }
}

/// What `str::to_lowercase` returns for the characters `s`.
pub uninterp spec fn lower_of(s: Seq<char>) -> Seq<char>;

/// Relies on str::to_lowercase: the lowercase mapping of each character,
/// which depends on the characters alone.
#[verifier::external_body]
fn lowercase(s: &str) -> (r: String)
    ensures
        r@ == lower_of(s@),
{
    s.to_lowercase()
}

/// File change status.
#[derive(Debug, Clone, Copy, PartialEq, Eq, Structural)]
pub enum FileStatus {
    Added,
    Modified,
    Deleted,
    Renamed,
}

/// The status that a lowercase status word stands for; any word not
/// recognised counts as a modification.
pub open spec fn status_of(word: Seq<char>) -> FileStatus {
    if word == "added"@ {
        FileStatus::Added
    } else if word == "removed"@ || word == "deleted"@ {
        FileStatus::Deleted
    } else if word == "renamed"@ {
        FileStatus::Renamed
    } else {
        FileStatus::Modified
    }
}

impl FileStatus {
    /// The status named by an already lowercased status word.
    pub fn from_lowercase(word: &String) -> (r: FileStatus)
        ensures
            r == status_of(word@),
    {
        if *word == String::from_str("added") {
            FileStatus::Added
        } else if *word == String::from_str("removed") || *word == String::from_str("deleted") {
            FileStatus::Deleted
        } else if *word == String::from_str("renamed") {
            FileStatus::Renamed
        } else {
            FileStatus::Modified
        }
    }
}

impl<'a> From<&'a str> for FileStatus {
    /// The status named by a status word, in any letter case.
    fn from(s: &'a str) -> (r: FileStatus) {
        FileStatus::from_lowercase(&lowercase(s))
    }
}

impl<'a> vstd::std_specs::convert::FromSpecImpl<&'a str> for FileStatus {
    open spec fn obeys_from_spec() -> bool {
        true
    }

    open spec fn from_spec(s: &'a str) -> FileStatus {
        status_of(lower_of(s@))
    }
}

/// Pull request metadata.
#[derive(Debug, Clone)]
pub struct PullRequest {
    pub number: u64,
    pub title: String,
    pub url: String,
    /// The revision the pull request's branch points at.
    pub head_sha: String,
    pub base_ref: String,
    pub head_ref: String,
    pub author: String,
    pub state: String,
}

/// A file changed in the pull request.
#[derive(Debug, Clone)]
pub struct ReviewFile {
    pub path: String,
    pub status: FileStatus,
    pub additions: u32,
    pub deletions: u32,
    /// Full file content at the head revision (none if the file was deleted).
    pub content: Option<String>,
    /// The file's hunks, in file order.
    pub hunks: Vec<Hunk>,
}

/// Hunk values in file order: ascending start line in the new version.
pub open spec fn views_in_order(hs: Seq<HunkView>) -> bool {
    forall|i: int, j: int| 0 <= i < j < hs.len() ==> hs[i].start <= hs[j].start
}

impl ReviewFile {
    /// Every hunk is well formed and the hunks stand in file order.
    pub open spec fn wf(&self) -> bool {
        &&& forall|i: int| 0 <= i < self.hunks@.len() ==> #[trigger] self.hunks@[i].wf()
        &&& sorted_by_start(self.hunks@)
    }

    /// Assembles a changed file from what the platform reports of it: the
    /// hunks are read from the file's patch. None when the patch cannot be
    /// read or its hunks are out of file order.
    pub fn from_patch(
        path: String,
        status: FileStatus,
        additions: u32,
        deletions: u32,
        content: Option<String>,
        patch: &str,
    ) -> (r: Option<ReviewFile>)
        ensures
            match r {
                Some(f) => {
                    &&& f.wf()
                    &&& f.path == path && f.status == status && f.content == content
                    &&& f.additions == additions && f.deletions == deletions
                    &&& patch_hunks(lines_of(patch@)) == Some(f.hunks@.map_values(|h: Hunk| view_of(h)))
                },
                None => match patch_hunks(lines_of(patch@)) {
                    Some(hs) => !views_in_order(hs),
                    None => true,
                },
            },
    {
        let hunks = match parse_patch(patch) {
            Some(hs) => hs,
            None => {
                return None;
            },
        };
        let ordered = is_sorted_by_start(&hunks);
        proof {
            let vs = hunks@.map_values(|h: Hunk| view_of(h));
            assert(vs.len() == hunks@.len());
            if sorted_by_start(hunks@) {
                assert forall|i: int, j: int| 0 <= i < j < vs.len() implies vs[i].start <= vs[j].start by {
                    assert(vs[i] == view_of(hunks@[i]));
                    assert(vs[j] == view_of(hunks@[j]));
                }
            }
            if views_in_order(vs) {
                assert forall|i: int, j: int| 0 <= i < j < hunks@.len() implies hunks@[i].start <= hunks@[j].start by {
                    assert(vs[i] == view_of(hunks@[i]));
                    assert(vs[j] == view_of(hunks@[j]));
                }
            }
        }
        if !ordered {
            return None;
        }
        Some(ReviewFile { path, status, additions, deletions, content, hunks })
    }
}

/// A review comment on the pull request.
#[derive(Debug, Clone)]
pub struct ReviewComment {
    pub id: u64,
    pub path: String,
    /// The commented line; none for a comment on the whole file.
    pub line: Option<u32>,
    /// `LEFT` for the old version, `RIGHT` for the new one.
    pub side: String,
    pub body: String,
    pub author: String,
    pub created_at: String,
    pub html_url: String,
}

/// The snapshot that one fetch assembles.
#[derive(Debug, Clone)]
pub struct FetchResponse {
    pub pr: PullRequest,
    pub files: Vec<ReviewFile>,
    pub comments: Vec<ReviewComment>,
}

/// The outcome of posting a comment.
#[derive(Debug, Clone)]
pub struct CommentResponse {
    pub success: bool,
    pub comment_id: Option<u64>,
    pub html_url: Option<String>,
    pub error: Option<String>,
}

impl CommentResponse {
    /// Success carries the new comment's id and address and no error; failure
    /// carries an error and neither of the others.
    pub open spec fn wf(&self) -> bool {
        if self.success {
            self.comment_id.is_some() && self.html_url.is_some() && self.error.is_none()
        } else {
            self.comment_id.is_none() && self.html_url.is_none() && self.error.is_some()
        }
    }

    /// The outcome of a comment that was created.
    pub fn created(comment: ReviewComment) -> (r: CommentResponse)
        ensures
            r.wf(),
            r == (CommentResponse {
                success: true,
                comment_id: Some(comment.id),
                html_url: Some(comment.html_url),
                error: None,
            }),
    {
        CommentResponse {
            success: true,
            comment_id: Some(comment.id),
            html_url: Some(comment.html_url),
            error: None,
        }
    }

    /// The outcome of a post that failed with `message`.
    pub fn failed(message: String) -> (r: CommentResponse)
        ensures
            r.wf(),
            r == (CommentResponse { success: false, comment_id: None, html_url: None, error: Some(message) }),
    {
        CommentResponse { success: false, comment_id: None, html_url: None, error: Some(message) }
    }
}

/// The review comments of a pull request.
#[derive(Debug, Clone)]
pub struct CommentsResponse {
    pub comments: Vec<ReviewComment>,
}

} // verus!
