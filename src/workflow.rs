use vstd::prelude::*;
use crate::model::{VideoListResponse, VideoSearchResponse, VideoUploadRequest, YtError};

verus! {

/// How many of the latest videos a run offers to clone from.
pub const SEARCH_LIMIT: u32 = 10;

/// Where a run stands.
#[derive(Debug, Clone, PartialEq, Eq)]
pub enum Phase {
    Start,
    Searching,
    Selecting,
    Fetching,
    Editing,
    Uploading,
    /// The video with this identifier was uploaded; its thumbnail is being set.
    Thumbnailing(String),
    Finished,
}

/// What the outside world reports back to a run.
#[derive(Debug, PartialEq, Eq)]
pub enum Event {
    Begin,
    SearchDone(Result<Vec<VideoSearchResponse>, YtError>),
    /// The identifier of the video the user chose.
    Selected(String),
    Fetched(Result<VideoListResponse, YtError>),
    Edited(Result<VideoUploadRequest, YtError>),
    /// The identifier of the new video, or why the upload failed.
    Uploaded(Result<String, YtError>),
    ThumbnailDone(Result<(), YtError>),
}

/// How a run ended.
#[derive(Debug, Clone, PartialEq, Eq)]
pub enum Outcome {
    /// The search found no video to clone from.
    NoVideos,
    /// A step before the upload completed failed; nothing was created.
    Failed(YtError),
    /// The video with this identifier was uploaded and its thumbnail set.
    Completed(String),
    /// The video with this identifier was uploaded and stays; its thumbnail was refused.
    ThumbnailFailed(String, YtError),
    /// An event came that the run was not waiting for.
    OutOfOrder,
}

/// What a run asks the outside world to do next.
#[derive(Debug, Clone, PartialEq, Eq)]
pub enum Action {
    /// List the latest videos, at most this many.
    Search(u32),
    /// Let the user choose one of these videos.
    Select(Vec<VideoSearchResponse>),
    /// Fetch the metadata of the video with this identifier.
    Fetch(String),
    /// Let the user edit a request seeded from this metadata.
    Edit(VideoListResponse),
    /// Upload the new video with this request.
    Upload(VideoUploadRequest),
    /// Set the thumbnail of the video with this identifier.
    AttachThumbnail(String),
    /// Report how the run ended.
    Report(Outcome),
    /// Nothing is left to do.
    Stop,
}

/// The next phase and action of a run in phase `p` when `e` comes: each step
/// leads to the next, any failure ends the run at once, an empty search ends
/// it before anything is fetched, and a refused thumbnail leaves the upload in place.
pub open spec fn transition(p: Phase, e: Event) -> (Phase, Action) {
    match (p, e) {
        (Phase::Start, Event::Begin) => (Phase::Searching, Action::Search(SEARCH_LIMIT)),
        (Phase::Searching, Event::SearchDone(Ok(videos))) => if videos.len() == 0 {
            (Phase::Finished, Action::Report(Outcome::NoVideos))
        } else {
            (Phase::Selecting, Action::Select(videos))
        },
        (Phase::Selecting, Event::Selected(id)) => (Phase::Fetching, Action::Fetch(id)),
        (Phase::Fetching, Event::Fetched(Ok(meta))) => (Phase::Editing, Action::Edit(meta)),
        (Phase::Editing, Event::Edited(Ok(request))) => (
            Phase::Uploading,
            Action::Upload(request),
        ),
        (Phase::Uploading, Event::Uploaded(Ok(id))) => (
            Phase::Thumbnailing(id),
            Action::AttachThumbnail(id),
        ),
        (Phase::Thumbnailing(id), Event::ThumbnailDone(Ok(()))) => (
            Phase::Finished,
            Action::Report(Outcome::Completed(id)),
        ),
        (Phase::Thumbnailing(id), Event::ThumbnailDone(Err(err))) => (
            Phase::Finished,
            Action::Report(Outcome::ThumbnailFailed(id, err)),
        ),
        (Phase::Searching, Event::SearchDone(Err(err))) => (
            Phase::Finished,
            Action::Report(Outcome::Failed(err)),
        ),
        (Phase::Fetching, Event::Fetched(Err(err))) => (
            Phase::Finished,
            Action::Report(Outcome::Failed(err)),
        ),
        (Phase::Editing, Event::Edited(Err(err))) => (
            Phase::Finished,
            Action::Report(Outcome::Failed(err)),
        ),
        (Phase::Uploading, Event::Uploaded(Err(err))) => (
            Phase::Finished,
            Action::Report(Outcome::Failed(err)),
        ),
        (Phase::Finished, _) => (Phase::Finished, Action::Stop),
        _ => (Phase::Finished, Action::Report(Outcome::OutOfOrder)),
    }
}

/// Advances a run: the next phase and the action to perform.
pub fn advance(p: Phase, e: Event) -> (r: (Phase, Action))
    ensures
        r == transition(p, e),
{
    match (p, e) {
        (Phase::Start, Event::Begin) => (Phase::Searching, Action::Search(SEARCH_LIMIT)),
        (Phase::Searching, Event::SearchDone(Ok(videos))) => if videos.len() == 0 {
            (Phase::Finished, Action::Report(Outcome::NoVideos))
        } else {
            (Phase::Selecting, Action::Select(videos))
        },
        (Phase::Selecting, Event::Selected(id)) => (Phase::Fetching, Action::Fetch(id)),
        (Phase::Fetching, Event::Fetched(Ok(meta))) => (Phase::Editing, Action::Edit(meta)),
        (Phase::Editing, Event::Edited(Ok(request))) => (
            Phase::Uploading,
            Action::Upload(request),
        ),
        (Phase::Uploading, Event::Uploaded(Ok(id))) => {
            let copy = id.clone();
            (Phase::Thumbnailing(id), Action::AttachThumbnail(copy))
        },
        (Phase::Thumbnailing(id), Event::ThumbnailDone(Ok(()))) => (
            Phase::Finished,
            Action::Report(Outcome::Completed(id)),
        ),
        (Phase::Thumbnailing(id), Event::ThumbnailDone(Err(err))) => (
            Phase::Finished,
            Action::Report(Outcome::ThumbnailFailed(id, err)),
        ),
        (Phase::Searching, Event::SearchDone(Err(err))) => (
            Phase::Finished,
            Action::Report(Outcome::Failed(err)),
        ),
        (Phase::Fetching, Event::Fetched(Err(err))) => (
            Phase::Finished,
            Action::Report(Outcome::Failed(err)),
        ),
        (Phase::Editing, Event::Edited(Err(err))) => (
            Phase::Finished,
            Action::Report(Outcome::Failed(err)),
        ),
        (Phase::Uploading, Event::Uploaded(Err(err))) => (
            Phase::Finished,
            Action::Report(Outcome::Failed(err)),
        ),
        (Phase::Finished, _) => (Phase::Finished, Action::Stop),
        _ => (Phase::Finished, Action::Report(Outcome::OutOfOrder)),
    }
}

/// An empty search ends the run with "no videos", and once a run has ended no
/// later event leads to a fetch, an edit, an upload or a thumbnail.
pub proof fn lemma_empty_search_stops(videos: Vec<VideoSearchResponse>, later: Event)
    requires
        videos@.len() == 0,
    ensures
        transition(Phase::Searching, Event::SearchDone(Ok(videos))) == (
            Phase::Finished,
            Action::Report(Outcome::NoVideos),
        ),
        transition(Phase::Finished, later) == (Phase::Finished, Action::Stop),
{
}

/// A refused thumbnail ends the run reporting the uploaded video's identifier
/// together with the refusal; nothing further is asked of the platform.
pub proof fn lemma_thumbnail_failure_keeps_upload(id: String, err: YtError, later: Event)
    ensures
        transition(Phase::Thumbnailing(id), Event::ThumbnailDone(Err(err))) == (
            Phase::Finished,
            Action::Report(Outcome::ThumbnailFailed(id, err)),
        ),
        transition(Phase::Finished, later) == (Phase::Finished, Action::Stop),
{
}

} // verus!
