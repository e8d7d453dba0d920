use vstd::prelude::*;

use crate::types::{CommentResponse, PullRequest, ReviewComment};

verus! {

/// A comment to attach: file path, 1-indexed line, side and text. The side
/// is `LEFT` for the old version of the line and `RIGHT` for the new one.
#[derive(Debug, Clone)]
pub struct CommentDraft {
    pub path: String,
    pub line: u32,
    pub side: String,
    pub body: String,
}

/// Where a post stands between two remote calls.
#[derive(Debug)]
pub enum PostState {
    /// The pull request's metadata was asked for, to learn its head revision.
    AwaitingPr(CommentDraft),
    /// The comment's creation was asked for.
    AwaitingComment,
    /// The post has answered; nothing more is called.
    Finished,
}

/// What a remote call handed back.
#[derive(Debug)]
pub enum PostEvent {
    PrLoaded(Result<PullRequest, String>),
    Created(Result<ReviewComment, String>),
}

/// What the driver of a post is to do next.
#[derive(Debug)]
pub enum PostAction {
    /// Read the pull request's current metadata.
    LoadPr,
    /// Create the comment, anchored at this revision.
    Create(String, CommentDraft),
    /// Hand this outcome to the caller.
    Respond(CommentResponse),
    /// An event came that the current step does not wait for.
    OutOfOrder,
}

/// The outcome that reports a failure with `message`.
pub open spec fn failure_outcome(message: String) -> CommentResponse {
    CommentResponse { success: false, comment_id: None, html_url: None, error: Some(message) }
}

/// The outcome that reports the created comment `c`.
pub open spec fn success_outcome(c: ReviewComment) -> CommentResponse {
    CommentResponse { success: true, comment_id: Some(c.id), html_url: Some(c.html_url), error: None }
}

/// One step of a post. The comment is anchored at the head revision that was
/// just read, and every remote failure becomes a failure outcome carrying the
/// remote message.
pub open spec fn post_next(s: PostState, e: PostEvent) -> (PostState, PostAction) {
    match s {
        PostState::AwaitingPr(draft) => match e {
            PostEvent::PrLoaded(Ok(pr)) => (PostState::AwaitingComment, PostAction::Create(pr.head_sha, draft)),
            PostEvent::PrLoaded(Err(m)) => (PostState::Finished, PostAction::Respond(failure_outcome(m))),
            _ => (PostState::Finished, PostAction::OutOfOrder),
        },
        PostState::AwaitingComment => match e {
            PostEvent::Created(Ok(c)) => (PostState::Finished, PostAction::Respond(success_outcome(c))),
            PostEvent::Created(Err(m)) => (PostState::Finished, PostAction::Respond(failure_outcome(m))),
            _ => (PostState::Finished, PostAction::OutOfOrder),
        },
        PostState::Finished => (PostState::Finished, PostAction::OutOfOrder),
    }
}

/// Begins a post of `draft`: the pull request's metadata is read first.
pub fn post_start(draft: CommentDraft) -> (r: (PostState, PostAction))
    ensures
        r == (PostState::AwaitingPr(draft), PostAction::LoadPr),
{
    (PostState::AwaitingPr(draft), PostAction::LoadPr)
}

/// Takes one step of a post.
pub fn post_step(state: PostState, event: PostEvent) -> (r: (PostState, PostAction))
    ensures
        r == post_next(state, event),
{
    match state {
        PostState::AwaitingPr(draft) => match event {
            PostEvent::PrLoaded(Ok(pr)) => (PostState::AwaitingComment, PostAction::Create(pr.head_sha, draft)),
            PostEvent::PrLoaded(Err(m)) => (PostState::Finished, PostAction::Respond(CommentResponse::failed(m))),
            _ => (PostState::Finished, PostAction::OutOfOrder),
        },
        PostState::AwaitingComment => match event {
            PostEvent::Created(Ok(c)) => (PostState::Finished, PostAction::Respond(CommentResponse::created(c))),
            PostEvent::Created(Err(m)) => (PostState::Finished, PostAction::Respond(CommentResponse::failed(m))),
            _ => (PostState::Finished, PostAction::OutOfOrder),
        },
        PostState::Finished => (PostState::Finished, PostAction::OutOfOrder),
    }
}

/// The actions that a post in state `s` takes on the events `events`, in order.
pub open spec fn post_run(s: PostState, events: Seq<PostEvent>) -> Seq<PostAction>
    decreases events.len(),
{
    if events.len() == 0 {
        Seq::empty()
    } else {
        let (t, a) = post_next(s, events[0]);
        seq![a] + post_run(t, events.drop_first())
    }
}

proof fn lemma_post_run_len(s: PostState, events: Seq<PostEvent>)
    ensures
        post_run(s, events).len() == events.len(),
    decreases events.len(),
{
    if events.len() > 0 {
        let (t, a) = post_next(s, events[0]);
        lemma_post_run_len(t, events.drop_first());
    }
}

proof fn lemma_create_fresh_from(s: PostState, events: Seq<PostEvent>, k: int)
    requires
        0 <= k < post_run(s, events).len(),
        post_run(s, events)[k] is Create,
    ensures
        events[k] is PrLoaded,
        events[k]->PrLoaded_0 is Ok,
        post_run(s, events)[k]->Create_0 == events[k]->PrLoaded_0->Ok_0.head_sha,
    decreases events.len(),
{
    lemma_post_run_len(s, events);
    let (t, a) = post_next(s, events[0]);
    let run = post_run(s, events);
    assert(run == seq![a] + post_run(t, events.drop_first()));
    if k > 0 {
        lemma_create_fresh_from(t, events.drop_first(), k - 1);
        assert(run[k] == post_run(t, events.drop_first())[k - 1]);
        assert(events[k] == events.drop_first()[k - 1]);
    }
}

/// The revision a comment is anchored at is always the one just read: every
/// creation a post asks for answers the metadata read that came right before
/// it, and uses that read's head revision, never one known before the post
/// began.
pub proof fn lemma_comment_anchored_at_fresh_revision(draft: CommentDraft, events: Seq<PostEvent>, k: int)
    requires
        0 <= k < post_run(PostState::AwaitingPr(draft), events).len(),
        post_run(PostState::AwaitingPr(draft), events)[k] is Create,
    ensures
        events[k] is PrLoaded,
        events[k]->PrLoaded_0 is Ok,
        post_run(PostState::AwaitingPr(draft), events)[k]->Create_0
            == events[k]->PrLoaded_0->Ok_0.head_sha,
{
    lemma_create_fresh_from(PostState::AwaitingPr(draft), events, k);
}

/// A rejection of the comment by the remote side is no abort: the post answers
/// with a failure outcome that carries the remote message and no id or address.
pub proof fn lemma_rejection_reported(message: String)
    ensures
        post_next(PostState::AwaitingComment, PostEvent::Created(Err(message)))
            == (PostState::Finished, PostAction::Respond(
            CommentResponse { success: false, comment_id: None, html_url: None, error: Some(message) },
        )),
        failure_outcome(message).wf(),
{
}

} // verus!
