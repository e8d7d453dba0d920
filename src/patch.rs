use vstd::prelude::*;
use vstd::string::{StrSliceExecFns, StringExecFns};

use crate::hunk::Hunk;
use crate::pr_url::{digits_value, is_digit, read_number};

verus! {

broadcast use vstd::string::group_string_axioms;

/// The index just past the run of digits that starts at `i` in `s`.
pub open spec fn digit_run_end(s: Seq<char>, i: int) -> int
    decreases s.len() - i,
{
    if 0 <= i < s.len() && is_digit(s[i]) {
        digit_run_end(s, i + 1)
    } else {
        i
    }
}

/// The number written by the digit run at `i`, if the run is not empty and
/// the number fits 32 bits.
pub open spec fn number_at(s: Seq<char>, i: int) -> Option<nat> {
    let e = digit_run_end(s, i);
    if e > i && digits_value(s.subrange(i, e)) <= u32::MAX {
        Some(digits_value(s.subrange(i, e)))
    } else {
        None
    }
}

/// The index past an optional `,<digits>` at `i`.
pub open spec fn skip_count(s: Seq<char>, i: int) -> int {
    if 0 <= i < s.len() && s[i] == ',' {
        digit_run_end(s, i + 1)
    } else {
        i
    }
}

/// The old and new start lines of a hunk header
/// `@@ -<old>[,<count>] +<new>[,<count>] @@...`.
pub open spec fn header_of(s: Seq<char>) -> Option<(nat, nat)> {
    let e1 = digit_run_end(s, 4);
    let p1 = skip_count(s, e1);
    let e2 = digit_run_end(s, p1 + 2);
    let p2 = skip_count(s, e2);
    if s.len() >= 4 && s.subrange(0, 4) == "@@ -"@ && number_at(s, 4) is Some && p1 + 2 <= s.len()
        && s.subrange(p1, p1 + 2) == " +"@ && number_at(s, p1 + 2) is Some && p2 + 3 <= s.len()
        && s.subrange(p2, p2 + 3) == " @@"@ {
        Some((number_at(s, 4)->Some_0, number_at(s, p1 + 2)->Some_0))
    } else {
        None
    }
}

/// The index just past the run of digits at `i`.
fn digit_end(s: &str, n: usize, i: usize) -> (e: usize)
    requires
        n == s@.len(),
        i <= n,
    ensures
        e == digit_run_end(s@, i as int),
        i <= e <= n,
{
    let mut k = i;
    while k < n
        invariant
            i <= k <= n,
            n == s@.len(),
            digit_run_end(s@, i as int) == digit_run_end(s@, k as int),
        decreases n - k,
    {
        let c = s.get_char(k);
        if !('0' <= c && c <= '9') {
            return k;
        }
        k = k + 1;
    }
    k
}

/// The number written by the digit run at `i`, when it fits 32 bits.
fn number_from(s: &str, n: usize, i: usize) -> (r: Option<u32>)
    requires
        n == s@.len(),
        i <= n,
    ensures
        r matches Some(v) ==> number_at(s@, i as int) == Some(v as nat),
        r is None ==> number_at(s@, i as int) is None,
{
    let e = digit_end(s, n, i);
    if e == i {
        return None;
    }
    proof {
        assert forall|m: int| 0 <= m < e - i implies is_digit(#[trigger] s@.subrange(i as int, e as int)[m]) by {
            lemma_run_is_digits(s@, i as int, i + m);
        }
    }
    match read_number(s, e, i) {
        Some(v) => {
            if v <= 4294967295 {
                Some(v as u32)
            } else {
                None
            }
        },
        None => None,
    }
}

proof fn lemma_run_is_digits(s: Seq<char>, i: int, m: int)
    requires
        0 <= i <= m < digit_run_end(s, i),
    ensures
        is_digit(s[m]),
    decreases m - i,
{
    if m > i {
        lemma_run_is_digits(s, i + 1, m);
    }
}

/// Tells whether `lit` stands in `s` at index `i`.
fn text_at(s: &str, n: usize, i: usize, lit: &str) -> (r: bool)
    requires
        n == s@.len(),
    ensures
        r == (i + lit@.len() <= n && s@.subrange(i as int, i + lit@.len()) == lit@),
{
    let k = lit.unicode_len();
    if i > n || k > n - i {
        return false;
    }
    String::from_str(s.substring_char(i, i + k)) == String::from_str(lit)
}

/// The index past an optional `,<digits>` at `i`.
fn skip_count_at(s: &str, n: usize, i: usize) -> (r: usize)
    requires
        n == s@.len(),
        i <= n,
    ensures
        r == skip_count(s@, i as int),
        i <= r <= n,
{
    if i < n && s.get_char(i) == ',' {
        digit_end(s, n, i + 1)
    } else {
        i
    }
}

/// The old and new start lines of a hunk header line.
pub fn parse_header(line: &str) -> (r: Option<(u32, u32)>)
    ensures
        r matches Some((a, c)) ==> header_of(line@) == Some((a as nat, c as nat)),
        r is None ==> header_of(line@) is None,
{
    let n = line.unicode_len();
    proof {
        reveal_strlit("@@ -");
        reveal_strlit(" +");
        reveal_strlit(" @@");
    }
    if !text_at(line, n, 0, "@@ -") {
        return None;
    }
    let e1 = digit_end(line, n, 4);
    let p1 = skip_count_at(line, n, e1);
    let old = number_from(line, n, 4);
    if !text_at(line, n, p1, " +") {
        return None;
    }
    let e2 = digit_end(line, n, p1 + 2);
    let p2 = skip_count_at(line, n, e2);
    let new = number_from(line, n, p1 + 2);
    if !text_at(line, n, p2, " @@") {
        return None;
    }
    match (old, new) {
        (Some(a), Some(c)) => Some((a, c)),
        _ => None,
    }
}

/// A hunk as a mathematical value.
pub struct HunkView {
    pub start: nat,
    pub count: nat,
    pub old_start: nat,
    pub old_count: nat,
    pub old_lines: Seq<Seq<char>>,
}

/// Where a reading of a patch stands after some of its lines: whether a hunk
/// header was seen, the next old and new line numbers, the hunks that are
/// complete, and the run of changed lines still open.
pub struct Scan {
    pub started: bool,
    pub old_line: nat,
    pub new_line: nat,
    pub done: Seq<HunkView>,
    pub open: Option<HunkView>,
}

/// The value of an executable hunk.
pub open spec fn view_of(h: Hunk) -> HunkView {
    HunkView {
        start: h.start as nat,
        count: h.count as nat,
        old_start: h.old_start as nat,
        old_count: h.old_count as nat,
        old_lines: h.old_lines@.map_values(|l: String| l@),
    }
}

/// The complete hunks once the open run, if any, is closed.
pub open spec fn closed(s: Scan) -> Seq<HunkView> {
    match s.open {
        Some(h) => s.done.push(h),
        None => s.done,
    }
}

/// The open run, or an empty one that starts at the current lines.
pub open spec fn opened(s: Scan) -> HunkView {
    match s.open {
        Some(h) => h,
        None => HunkView { start: s.new_line, count: 0, old_start: s.old_line, old_count: 0, old_lines: seq![] },
    }
}

/// Reads one line of a patch. A header restarts the line numbers; a `-` line
/// joins the open run as an old line, a `+` line as a new one; a `\` marker
/// is skipped; any other line is context and closes the run. Lines before
/// the first header, a malformed header and a line number beyond 32 bits make
/// the patch unreadable.
pub open spec fn scan_line(s: Scan, line: Seq<char>) -> Option<Scan> {
    if line.len() >= 2 && line.subrange(0, 2) == "@@"@ {
        match header_of(line) {
            Some((a, c)) => Some(Scan { started: true, old_line: a, new_line: c, done: closed(s), open: None }),
            None => None,
        }
    } else if !s.started {
        None
    } else if line.len() > 0 && line[0] == '\\' {
        Some(s)
    } else if line.len() > 0 && line[0] == '-' {
        let h = opened(s);
        if s.old_line + 1 > u32::MAX {
            None
        } else {
            Some(Scan {
                started: true,
                old_line: s.old_line + 1,
                new_line: s.new_line,
                done: s.done,
                open: Some(HunkView {
                    start: h.start,
                    count: h.count,
                    old_start: h.old_start,
                    old_count: h.old_count + 1,
                    old_lines: h.old_lines.push(line.drop_first()),
                }),
            })
        }
    } else if line.len() > 0 && line[0] == '+' {
        let h = opened(s);
        if s.new_line + 1 > u32::MAX {
            None
        } else {
            Some(Scan {
                started: true,
                old_line: s.old_line,
                new_line: s.new_line + 1,
                done: s.done,
                open: Some(HunkView {
                    start: h.start,
                    count: h.count + 1,
                    old_start: h.old_start,
                    old_count: h.old_count,
                    old_lines: h.old_lines,
                }),
            })
        }
    } else if s.old_line + 1 > u32::MAX || s.new_line + 1 > u32::MAX {
        None
    } else {
        Some(Scan { started: true, old_line: s.old_line + 1, new_line: s.new_line + 1, done: closed(s), open: None })
    }
}

/// The state after reading `lines` from the start of a patch.
pub open spec fn scan(lines: Seq<Seq<char>>) -> Option<Scan>
    decreases lines.len(),
{
    if lines.len() == 0 {
        Some(Scan { started: false, old_line: 0, new_line: 0, done: seq![], open: None })
    } else {
        match scan(lines.drop_last()) {
            Some(s) => scan_line(s, lines.last()),
            None => None,
        }
    }
}

/// The hunks of a patch given by its lines: each maximal run of changed
/// lines, with the line numbers where it starts on each side and its old
/// lines; none if the patch cannot be read.
pub open spec fn patch_hunks(lines: Seq<Seq<char>>) -> Option<Seq<HunkView>> {
    match scan(lines) {
        Some(s) => Some(closed(s)),
        None => None,
    }
}

/// The state that the executable reading holds.
pub open spec fn scan_of(
    started: bool,
    old_line: u32,
    new_line: u32,
    done: Seq<Hunk>,
    open: Option<HunkView>,
) -> Scan {
    Scan {
        started,
        old_line: old_line as nat,
        new_line: new_line as nat,
        done: done.map_values(|h: Hunk| view_of(h)),
        open,
    }
}

proof fn lemma_scan_stuck(views: Seq<Seq<char>>, i: int)
    requires
        0 <= i <= views.len(),
        scan(views.subrange(0, i)) is None,
    ensures
        patch_hunks(views) is None,
    decreases views.len() - i,
{
    if i < views.len() {
        let next = views.subrange(0, i + 1);
        assert(next.drop_last() =~= views.subrange(0, i));
        lemma_scan_stuck(views, i + 1);
    } else {
        assert(views.subrange(0, i) =~= views);
    }
}

/// The open run that the executable reading holds.
pub open spec fn open_of(
    have_open: bool,
    start: u32,
    count: u32,
    old_start: u32,
    old_count: u32,
    old_lines: Seq<String>,
) -> Option<HunkView> {
    if have_open {
        Some(
            HunkView {
                start: start as nat,
                count: count as nat,
                old_start: old_start as nat,
                old_count: old_count as nat,
                old_lines: old_lines.map_values(|l: String| l@),
            },
        )
    } else {
        None
    }
}

/// Reads the hunks of a patch given by its lines.
pub fn hunks_from_lines(lines: &Vec<String>) -> (r: Option<Vec<Hunk>>)
    ensures
        match r {
            Some(hs) => patch_hunks(lines@.map_values(|l: String| l@)) == Some(
                hs@.map_values(|h: Hunk| view_of(h)),
            ) && forall|i: int| 0 <= i < hs@.len() ==> (#[trigger] hs@[i]).wf(),
            None => patch_hunks(lines@.map_values(|l: String| l@)) is None,
        },
{
    let ghost views = lines@.map_values(|l: String| l@);
    let mut started = false;
    let mut old_line: u32 = 0;
    let mut new_line: u32 = 0;
    let mut done: Vec<Hunk> = Vec::new();
    let mut have_open = false;
    let mut h_start: u32 = 0;
    let mut h_count: u32 = 0;
    let mut h_old_start: u32 = 0;
    let mut h_old_count: u32 = 0;
    let mut h_old: Vec<String> = Vec::new();
    let mut i: usize = 0;
    proof {
        reveal_strlit("@@");
        assert(views.subrange(0, 0) =~= Seq::<Seq<char>>::empty());
        assert(done@.map_values(|h: Hunk| view_of(h)) =~= Seq::<HunkView>::empty());
    }
    while i < lines.len()
        invariant
            0 <= i <= lines@.len(),
            views == lines@.map_values(|l: String| l@),
            scan(views.subrange(0, i as int)) == Some(
                scan_of(
                    started,
                    old_line,
                    new_line,
                    done@,
                    open_of(have_open, h_start, h_count, h_old_start, h_old_count, h_old@),
                ),
            ),
            forall|k: int| 0 <= k < done@.len() ==> (#[trigger] done@[k]).wf(),
            !have_open ==> h_old@.len() == 0,
            have_open ==> h_old@.len() == h_old_count as nat && (h_old_count > 0 || h_count > 0)
                && h_start as nat + h_count as nat == new_line as nat
                && h_old_start as nat + h_old_count as nat == old_line as nat,
        decreases lines@.len() - i,
    {
        let line: &str = lines[i].as_str();
        let n = line.unicode_len();
        let ghost before = views.subrange(0, i as int);
        proof {
            reveal_strlit("@@");
            assert(views.subrange(0, i + 1).drop_last() =~= before);
            assert(views.subrange(0, i + 1).last() == line@);
        }
        let is_header = text_at(line, n, 0, "@@");
        let first = if n > 0 { line.get_char(0) } else { ' ' };
        if is_header || (started && !(n > 0 && (first == '\\' || first == '-' || first == '+'))) {
            // The open run ends here.
            let ghost prev_done = done@;
            if have_open {
                let hunk = Hunk::new(h_start, h_count, h_old_start, h_old_count, h_old);
                h_old = Vec::new();
                done.push(hunk);
                proof {
                    assert(done@.map_values(|h: Hunk| view_of(h)) =~= prev_done.map_values(|h: Hunk| view_of(h)).push(view_of(hunk)));
                }
                have_open = false;
            }
            if is_header {
                match parse_header(line) {
                    Some((a, c)) => {
                        old_line = a;
                        new_line = c;
                        started = true;
                    },
                    None => {
                        proof {
                            lemma_scan_stuck(views, i + 1);
                        }
                        return None;
                    },
                }
            } else {
                if old_line == 4294967295 || new_line == 4294967295 {
                    proof {
                        lemma_scan_stuck(views, i + 1);
                    }
                    return None;
                }
                old_line = old_line + 1;
                new_line = new_line + 1;
            }
        } else if !started {
            proof {
                lemma_scan_stuck(views, i + 1);
            }
            return None;
        } else if first == '-' {
            if old_line == 4294967295 {
                proof {
                    lemma_scan_stuck(views, i + 1);
                }
                return None;
            }
            if !have_open {
                h_start = new_line;
                h_count = 0;
                h_old_start = old_line;
                h_old_count = 0;
                have_open = true;
                assert(h_old@.map_values(|l: String| l@) =~= Seq::<Seq<char>>::empty());
            }
            let ghost prev_old = h_old@;
            let text = String::from_str(line.substring_char(1, n));
            h_old.push(text);
            proof {
                assert(h_old@.map_values(|l: String| l@) =~= prev_old.map_values(|l: String| l@).push(line@.drop_first()));
            }
            h_old_count = h_old_count + 1;
            old_line = old_line + 1;
        } else if first == '+' {
            if new_line == 4294967295 {
                proof {
                    lemma_scan_stuck(views, i + 1);
                }
                return None;
            }
            if !have_open {
                h_start = new_line;
                h_count = 0;
                h_old_start = old_line;
                h_old_count = 0;
                have_open = true;
                assert(h_old@.map_values(|l: String| l@) =~= Seq::<Seq<char>>::empty());
            }
            h_count = h_count + 1;
            new_line = new_line + 1;
        }
        i = i + 1;
    }
    if have_open {
        let ghost prev_done = done@;
        let hunk = Hunk::new(h_start, h_count, h_old_start, h_old_count, h_old);
        done.push(hunk);
        proof {
            assert(done@.map_values(|h: Hunk| view_of(h)) =~= prev_done.map_values(|h: Hunk| view_of(h)).push(view_of(hunk)));
        }
    }
    proof {
        assert(views.subrange(0, lines@.len() as int) =~= views);
    }
    Some(done)
}

/// What `str::lines` yields for the text `s`: its lines, without their terminators.
pub uninterp spec fn lines_of(s: Seq<char>) -> Seq<Seq<char>>;

/// Relies on str::lines: the text split at each line feed, a carriage return
/// before it dropped, with no line after a final line feed; empty text has no lines.
#[verifier::external_body]
fn split_lines(s: &str) -> (r: Vec<String>)
    ensures
        r@.map_values(|l: String| l@) == lines_of(s@),
        s@.len() == 0 ==> r@.len() == 0,
{
    s.lines().map(|l| l.to_string()).collect()
}

/// Reads the hunks of a unified diff patch: one hunk for each maximal run
/// of removed and added lines. None if the patch cannot be read.
pub fn parse_patch(patch: &str) -> (r: Option<Vec<Hunk>>)
    ensures
        match r {
            Some(hs) => patch_hunks(lines_of(patch@)) == Some(hs@.map_values(|h: Hunk| view_of(h)))
                && forall|i: int| 0 <= i < hs@.len() ==> (#[trigger] hs@[i]).wf(),
            None => patch_hunks(lines_of(patch@)) is None,
        },
{
    let lines = split_lines(patch);
    hunks_from_lines(&lines)
}

} // verus!
