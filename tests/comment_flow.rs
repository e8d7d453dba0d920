use prreview::comment::{post_start, post_step, CommentDraft, PostAction, PostEvent, PostState};
use prreview::types::{PullRequest, ReviewComment};

fn pr(sha: &str) -> PullRequest {
    PullRequest {
        number: 42,
        title: "t".to_string(),
        url: "https://github.com/acme/widgets/pull/42".to_string(),
        head_sha: sha.to_string(),
        base_ref: "main".to_string(),
        head_ref: "feature".to_string(),
        author: "alice".to_string(),
        state: "open".to_string(),
    }
}

fn draft(path: &str) -> CommentDraft {
    CommentDraft { path: path.to_string(), line: 12, side: "RIGHT".to_string(), body: "why?".to_string() }
}

fn created(id: u64) -> ReviewComment {
    ReviewComment {
        id,
        path: "src/lib.rs".to_string(),
        line: Some(12),
        side: "RIGHT".to_string(),
        body: "why?".to_string(),
        author: "bob".to_string(),
        created_at: "2024-01-01T00:00:00Z".to_string(),
        html_url: "https://github.com/acme/widgets/pull/42#discussion_r9".to_string(),
    }
}

#[test]
fn post_uses_fresh_revision() {
    // An earlier probe saw "old"; the branch advanced to "new" before the post.
    let probed = pr("old").head_sha;
    let (state, action) = post_start(draft("src/lib.rs"));
    assert!(matches!(action, PostAction::LoadPr));
    let (_, action) = post_step(state, PostEvent::PrLoaded(Ok(pr("new"))));
    match action {
        PostAction::Create(sha, d) => {
            assert_eq!(sha, "new");
            assert_ne!(sha, probed);
            assert_eq!(d.path, "src/lib.rs");
            assert_eq!(d.line, 12);
            assert_eq!(d.side, "RIGHT");
            assert_eq!(d.body, "why?");
        }
        other => panic!("unexpected action {:?}", other),
    }
}

#[test]
fn post_success_envelope() {
    let (state, _) = post_start(draft("src/lib.rs"));
    let (state, _) = post_step(state, PostEvent::PrLoaded(Ok(pr("s"))));
    let (state, action) = post_step(state, PostEvent::Created(Ok(created(9))));
    assert!(matches!(state, PostState::Finished));
    match action {
        PostAction::Respond(r) => {
            assert!(r.success);
            assert_eq!(r.comment_id, Some(9));
            assert_eq!(r.html_url.as_deref(), Some("https://github.com/acme/widgets/pull/42#discussion_r9"));
            assert_eq!(r.error, None);
        }
        other => panic!("unexpected action {:?}", other),
    }
}

#[test]
fn post_rejection_envelope() {
    let (state, _) = post_start(draft("src/lib.rs"));
    let (state, _) = post_step(state, PostEvent::PrLoaded(Ok(pr("s"))));
    let (_, action) = post_step(state, PostEvent::Created(Err("line must be part of the diff".to_string())));
    match action {
        PostAction::Respond(r) => {
            assert!(!r.success);
            assert_eq!(r.comment_id, None);
            assert_eq!(r.html_url, None);
            assert_eq!(r.error.as_deref(), Some("line must be part of the diff"));
        }
        other => panic!("unexpected action {:?}", other),
    }
}

#[test]
fn post_metadata_failure_envelope() {
    let (state, _) = post_start(draft("src/lib.rs"));
    let (state, action) = post_step(state, PostEvent::PrLoaded(Err("not found".to_string())));
    assert!(matches!(state, PostState::Finished));
    match action {
        PostAction::Respond(r) => {
            assert!(!r.success);
            assert_eq!(r.error.as_deref(), Some("not found"));
        }
        other => panic!("unexpected action {:?}", other),
    }
}

#[test]
fn post_on_deleted_file_still_calls_remote() {
    // The file was deleted in the pull request: it has no content at head.
    let (state, _) = post_start(draft("src/gone.rs"));
    let (_, action) = post_step(state, PostEvent::PrLoaded(Ok(pr("s"))));
    match action {
        PostAction::Create(sha, d) => {
            assert_eq!(sha, "s");
            assert_eq!(d.path, "src/gone.rs");
        }
        other => panic!("unexpected action {:?}", other),
    }
}

#[test]
fn post_events_out_of_order() {
    let (state, _) = post_start(draft("a"));
    let (state, action) = post_step(state, PostEvent::Created(Ok(created(1))));
    assert!(matches!(action, PostAction::OutOfOrder));
    let (_, action) = post_step(state, PostEvent::PrLoaded(Ok(pr("s"))));
    assert!(matches!(action, PostAction::OutOfOrder));
}
