use prreview::fetch::{fetch_start, fetch_step, FetchAction, FetchEvent, FetchState};
use prreview::hunk::{Hunk, HunkType};
use prreview::types::{FileStatus, PrRef, PullRequest, ReviewComment, ReviewFile};

fn pr(number: u64, url: &str, sha: &str) -> PullRequest {
    PullRequest {
        number,
        title: "Add widgets".to_string(),
        url: url.to_string(),
        head_sha: sha.to_string(),
        base_ref: "main".to_string(),
        head_ref: "feature".to_string(),
        author: "alice".to_string(),
        state: "open".to_string(),
    }
}

fn file(path: &str, status: FileStatus, hunks: Vec<Hunk>) -> ReviewFile {
    ReviewFile {
        path: path.to_string(),
        status,
        additions: 3,
        deletions: 2,
        content: if status == FileStatus::Deleted { None } else { Some("fn main() {}\n".to_string()) },
        hunks,
    }
}

fn comment(id: u64) -> ReviewComment {
    ReviewComment {
        id,
        path: "src/lib.rs".to_string(),
        line: None,
        side: "RIGHT".to_string(),
        body: "looks good".to_string(),
        author: "bob".to_string(),
        created_at: "2024-01-01T00:00:00Z".to_string(),
        html_url: format!("https://github.com/acme/widgets/pull/42#discussion_r{}", id),
    }
}

#[test]
fn fetch_snapshot_for_reference() {
    let r = PrRef { owner: "acme".to_string(), repo: "widgets".to_string(), number: 42 };
    let url = r.url();
    let (state, action) = fetch_start();
    assert!(matches!(action, FetchAction::LoadPr));
    let (state, action) = fetch_step(state, FetchEvent::PrLoaded(Ok(pr(42, &url, "abc123"))));
    match &action {
        FetchAction::LoadFiles(sha) => assert_eq!(sha, "abc123"),
        other => panic!("unexpected action {:?}", other),
    }
    let hunks = vec![
        Hunk::new(2, 1, 2, 1, vec!["old".to_string()]),
        Hunk::new(10, 3, 10, 0, vec![]),
        Hunk::new(20, 0, 22, 2, vec!["foo".to_string(), "bar".to_string()]),
    ];
    let files = vec![file("src/lib.rs", FileStatus::Modified, hunks)];
    let (state, action) = fetch_step(state, FetchEvent::FilesLoaded(Ok(files)));
    assert!(matches!(action, FetchAction::LoadComments));
    let (state, action) = fetch_step(state, FetchEvent::CommentsLoaded(Ok(vec![comment(1)])));
    assert!(matches!(state, FetchState::Finished));
    match action {
        FetchAction::Respond(resp) => {
            assert_eq!(resp.pr.number, 42);
            assert_eq!(resp.pr.url, "https://github.com/acme/widgets/pull/42");
            assert_eq!(resp.pr.head_sha, "abc123");
            for f in &resp.files {
                for w in f.hunks.windows(2) {
                    assert!(w[0].start <= w[1].start);
                }
            }
            assert_eq!(resp.files[0].hunks[1].hunk_type, HunkType::Add);
            assert_eq!(resp.comments.len(), 1);
            assert_eq!(resp.comments[0].id, 1);
        }
        other => panic!("unexpected action {:?}", other),
    }
}

#[test]
fn files_read_at_fetched_revision() {
    let (state, _) = fetch_start();
    let (state, action) = fetch_step(state, FetchEvent::PrLoaded(Ok(pr(7, "u", "deadbeef"))));
    let sha_used = match action {
        FetchAction::LoadFiles(sha) => sha,
        other => panic!("unexpected action {:?}", other),
    };
    let (state, _) = fetch_step(state, FetchEvent::FilesLoaded(Ok(vec![])));
    let (_, action) = fetch_step(state, FetchEvent::CommentsLoaded(Ok(vec![])));
    match action {
        FetchAction::Respond(resp) => assert_eq!(resp.pr.head_sha, sha_used),
        other => panic!("unexpected action {:?}", other),
    }
}

#[test]
fn failed_files_abort_whole_fetch() {
    let (state, _) = fetch_start();
    let (state, _) = fetch_step(state, FetchEvent::PrLoaded(Ok(pr(7, "u", "s"))));
    let (state, action) = fetch_step(state, FetchEvent::FilesLoaded(Err("rate limited".to_string())));
    match action {
        FetchAction::Fail(m) => assert_eq!(m, "rate limited"),
        other => panic!("unexpected action {:?}", other),
    }
    assert!(matches!(state, FetchState::Finished));
    let (state, action) = fetch_step(state, FetchEvent::CommentsLoaded(Ok(vec![comment(3)])));
    assert!(matches!(action, FetchAction::OutOfOrder));
    assert!(matches!(state, FetchState::Finished));
}

#[test]
fn failed_metadata_aborts() {
    let (state, _) = fetch_start();
    let (state, action) = fetch_step(state, FetchEvent::PrLoaded(Err("not found".to_string())));
    match action {
        FetchAction::Fail(m) => assert_eq!(m, "not found"),
        other => panic!("unexpected action {:?}", other),
    }
    assert!(matches!(state, FetchState::Finished));
}

#[test]
fn failed_comments_abort() {
    let (state, _) = fetch_start();
    let (state, _) = fetch_step(state, FetchEvent::PrLoaded(Ok(pr(7, "u", "s"))));
    let (state, _) = fetch_step(state, FetchEvent::FilesLoaded(Ok(vec![])));
    let (_, action) = fetch_step(state, FetchEvent::CommentsLoaded(Err("boom".to_string())));
    match action {
        FetchAction::Fail(m) => assert_eq!(m, "boom"),
        other => panic!("unexpected action {:?}", other),
    }
}

#[test]
fn events_out_of_order() {
    let (state, _) = fetch_start();
    let (state, action) = fetch_step(state, FetchEvent::FilesLoaded(Ok(vec![])));
    assert!(matches!(action, FetchAction::OutOfOrder));
    assert!(matches!(state, FetchState::Finished));
}
