use vstd::prelude::*;

use crate::types::{FetchResponse, PullRequest, ReviewComment, ReviewFile};

verus! {

/// Where a fetch stands between two remote reads.
#[derive(Debug)]
pub enum FetchState {
    /// The pull request's metadata was asked for.
    AwaitingPr,
    /// The changed files were asked for, at this pull request's head revision.
    AwaitingFiles(PullRequest),
    /// The review comments were asked for.
    AwaitingComments(PullRequest, Vec<ReviewFile>),
    /// The fetch has answered or failed; nothing more is read.
    Finished,
}

/// What a remote read handed back.
#[derive(Debug)]
pub enum FetchEvent {
    PrLoaded(Result<PullRequest, String>),
    FilesLoaded(Result<Vec<ReviewFile>, String>),
    CommentsLoaded(Result<Vec<ReviewComment>, String>),
}

/// What the driver of a fetch is to do next.
#[derive(Debug)]
pub enum FetchAction {
    /// Read the pull request's metadata.
    LoadPr,
    /// Read the changed files, with their content at this revision.
    LoadFiles(String),
    /// Read the review comments.
    LoadComments,
    /// Hand this snapshot to the caller.
    Respond(FetchResponse),
    /// Abort with this error message, handing out nothing else.
    Fail(String),
    /// An event came that the current step does not wait for.
    OutOfOrder,
}

/// One step of a fetch: the next state and action, given the state and the
/// result of the read that was asked for. Every failed read ends the fetch
/// with that read's message.
pub open spec fn fetch_next(s: FetchState, e: FetchEvent) -> (FetchState, FetchAction) {
    match s {
        FetchState::AwaitingPr => match e {
            FetchEvent::PrLoaded(Ok(pr)) => (FetchState::AwaitingFiles(pr), FetchAction::LoadFiles(pr.head_sha)),
            FetchEvent::PrLoaded(Err(m)) => (FetchState::Finished, FetchAction::Fail(m)),
            _ => (FetchState::Finished, FetchAction::OutOfOrder),
        },
        FetchState::AwaitingFiles(pr) => match e {
            FetchEvent::FilesLoaded(Ok(files)) => (FetchState::AwaitingComments(pr, files), FetchAction::LoadComments),
            FetchEvent::FilesLoaded(Err(m)) => (FetchState::Finished, FetchAction::Fail(m)),
            _ => (FetchState::Finished, FetchAction::OutOfOrder),
        },
        FetchState::AwaitingComments(pr, files) => match e {
            FetchEvent::CommentsLoaded(Ok(comments)) => (
                FetchState::Finished,
                FetchAction::Respond(FetchResponse { pr, files, comments }),
            ),
            FetchEvent::CommentsLoaded(Err(m)) => (FetchState::Finished, FetchAction::Fail(m)),
            _ => (FetchState::Finished, FetchAction::OutOfOrder),
        },
        FetchState::Finished => (FetchState::Finished, FetchAction::OutOfOrder),
    }
}

/// Begins a fetch: the metadata is read first.
pub fn fetch_start() -> (r: (FetchState, FetchAction))
    ensures
        r == (FetchState::AwaitingPr, FetchAction::LoadPr),
{
    (FetchState::AwaitingPr, FetchAction::LoadPr)
}

/// Takes one step of a fetch.
pub fn fetch_step(state: FetchState, event: FetchEvent) -> (r: (FetchState, FetchAction))
    ensures
        r == fetch_next(state, event),
{
    match state {
        FetchState::AwaitingPr => match event {
            FetchEvent::PrLoaded(Ok(pr)) => {
                let sha = pr.head_sha.clone();
                (FetchState::AwaitingFiles(pr), FetchAction::LoadFiles(sha))
            },
            FetchEvent::PrLoaded(Err(m)) => (FetchState::Finished, FetchAction::Fail(m)),
            _ => (FetchState::Finished, FetchAction::OutOfOrder),
        },
        FetchState::AwaitingFiles(pr) => match event {
            FetchEvent::FilesLoaded(Ok(files)) => (FetchState::AwaitingComments(pr, files), FetchAction::LoadComments),
            FetchEvent::FilesLoaded(Err(m)) => (FetchState::Finished, FetchAction::Fail(m)),
            _ => (FetchState::Finished, FetchAction::OutOfOrder),
        },
        FetchState::AwaitingComments(pr, files) => match event {
            FetchEvent::CommentsLoaded(Ok(comments)) => (
                FetchState::Finished,
                FetchAction::Respond(FetchResponse { pr, files, comments }),
            ),
            FetchEvent::CommentsLoaded(Err(m)) => (FetchState::Finished, FetchAction::Fail(m)),
            _ => (FetchState::Finished, FetchAction::OutOfOrder),
        },
        FetchState::Finished => (FetchState::Finished, FetchAction::OutOfOrder),
    }
}

/// The actions that a fetch in state `s` takes on the events `events`, in order.
pub open spec fn fetch_run(s: FetchState, events: Seq<FetchEvent>) -> Seq<FetchAction>
    decreases events.len(),
{
    if events.len() == 0 {
        Seq::empty()
    } else {
        let (t, a) = fetch_next(s, events[0]);
        seq![a] + fetch_run(t, events.drop_first())
    }
}

/// The pull request whose files a fetch in state `s` has already asked for.
pub open spec fn pinned_pr(s: FetchState) -> Option<PullRequest> {
    match s {
        FetchState::AwaitingFiles(pr) => Some(pr),
        FetchState::AwaitingComments(pr, _) => Some(pr),
        _ => None,
    }
}

proof fn lemma_response_pinned(s: FetchState, events: Seq<FetchEvent>, k: int)
    requires
        0 <= k < fetch_run(s, events).len(),
        fetch_run(s, events)[k] is Respond,
    ensures
        pinned_pr(s) == Some(fetch_run(s, events)[k]->Respond_0.pr) || exists|j: int|
            0 <= j < k && #[trigger] fetch_run(s, events)[j] == FetchAction::LoadFiles(
                fetch_run(s, events)[k]->Respond_0.pr.head_sha,
            ),
    decreases events.len(),
{
    let (t, a) = fetch_next(s, events[0]);
    let rest = events.drop_first();
    let run = fetch_run(s, events);
    assert(run == seq![a] + fetch_run(t, rest));
    if k > 0 {
        lemma_response_pinned(t, rest, k - 1);
        let resp = run[k]->Respond_0;
        assert(run[k] == fetch_run(t, rest)[k - 1]);
        if pinned_pr(t) == Some(resp.pr) {
            match s {
                FetchState::AwaitingPr => {
                    assert(run[0] == FetchAction::LoadFiles(resp.pr.head_sha));
                },
                _ => {},
            }
        } else {
            let j = choose|j: int|
                0 <= j < k - 1 && #[trigger] fetch_run(t, rest)[j] == FetchAction::LoadFiles(resp.pr.head_sha);
            assert(run[j + 1] == fetch_run(t, rest)[j]);
        }
    }
}

/// Every snapshot that a fetch hands out carries the very pull request whose
/// head revision the changed files were read at: an earlier action of the same
/// fetch asked for the files at that response's head revision.
pub proof fn lemma_files_read_at_response_revision(events: Seq<FetchEvent>, k: int)
    requires
        0 <= k < fetch_run(FetchState::AwaitingPr, events).len(),
        fetch_run(FetchState::AwaitingPr, events)[k] is Respond,
    ensures
        exists|j: int|
            0 <= j < k && #[trigger] fetch_run(FetchState::AwaitingPr, events)[j] == FetchAction::LoadFiles(
                fetch_run(FetchState::AwaitingPr, events)[k]->Respond_0.pr.head_sha,
            ),
{
    lemma_response_pinned(FetchState::AwaitingPr, events, k);
}

proof fn lemma_finished_never_responds(events: Seq<FetchEvent>)
    ensures
        forall|i: int| 0 <= i < fetch_run(FetchState::Finished, events).len()
            ==> #[trigger] fetch_run(FetchState::Finished, events)[i] == FetchAction::OutOfOrder,
    decreases events.len(),
{
    if events.len() > 0 {
        lemma_finished_never_responds(events.drop_first());
        let run = fetch_run(FetchState::Finished, events);
        assert(run == seq![FetchAction::OutOfOrder] + fetch_run(FetchState::Finished, events.drop_first()));
        assert forall|i: int| 0 <= i < run.len() implies #[trigger] run[i] == FetchAction::OutOfOrder by {
            if i > 0 {
                assert(run[i] == fetch_run(FetchState::Finished, events.drop_first())[i - 1]);
            }
        }
    }
}

/// All or nothing: once the read of the changed files fails, the fetch aborts
/// with that read's message and hands out no snapshot, so neither the pull
/// request's metadata nor any comment, whatever events follow.
pub proof fn lemma_failed_files_yield_nothing(pr: PullRequest, message: String, later: Seq<FetchEvent>)
    ensures
        fetch_run(FetchState::AwaitingFiles(pr), seq![FetchEvent::FilesLoaded(Err(message))] + later)[0]
            == FetchAction::Fail(message),
        forall|i: int| 0 <= i < fetch_run(FetchState::AwaitingFiles(pr), seq![FetchEvent::FilesLoaded(Err(message))] + later).len()
            ==> !(#[trigger] fetch_run(FetchState::AwaitingFiles(pr), seq![FetchEvent::FilesLoaded(Err(message))] + later)[i] is Respond),
{
    let events = seq![FetchEvent::FilesLoaded(Err(message))] + later;
    let run = fetch_run(FetchState::AwaitingFiles(pr), events);
    assert(events.drop_first() =~= later);
    assert(run == seq![FetchAction::Fail(message)] + fetch_run(FetchState::Finished, later));
    lemma_finished_never_responds(later);
    assert forall|i: int| 0 <= i < run.len() implies !(#[trigger] run[i] is Respond) by {
        if i > 0 {
            assert(run[i] == fetch_run(FetchState::Finished, later)[i - 1]);
        }
    }
}

} // verus!
