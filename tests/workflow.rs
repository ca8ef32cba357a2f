use ytup::document::{build_document, parse_request};
use ytup::metadata::{seed_upload_request, video_data_from_response, VideoItem, VideoSnippetData};
use ytup::model::{VideoSearchResponse, YtError};
use ytup::schedule::{default_publish_at, CivilDate};
use ytup::workflow::{advance, Action, Event, Outcome, Phase, SEARCH_LIMIT};

fn demo() -> VideoSearchResponse {
    VideoSearchResponse { id: "abc".to_string(), title: "Demo".to_string() }
}

#[test]
fn full_run_uploads_and_sets_thumbnail() {
    let (p, a) = advance(Phase::Start, Event::Begin);
    assert_eq!(a, Action::Search(SEARCH_LIMIT));
    let (p, a) = advance(p, Event::SearchDone(Ok(vec![demo()])));
    assert_eq!(a, Action::Select(vec![demo()]));
    let (p, a) = advance(p, Event::Selected("abc".to_string()));
    assert_eq!(a, Action::Fetch("abc".to_string()));
    let fetched = video_data_from_response(
        "abc",
        Some(vec![VideoItem {
            snippet: Some(VideoSnippetData {
                title: Some("Demo".to_string()),
                description: Some("d".to_string()),
                tags: Some(vec!["x".to_string()]),
                category_id: Some("22".to_string()),
            }),
        }]),
    );
    let (p, a) = advance(p, Event::Fetched(fetched));
    let meta = match a {
        Action::Edit(meta) => meta,
        other => panic!("expected an edit, got {:?}", other),
    };
    let publish_at = default_publish_at(CivilDate { year: 2024, month: 3, day: 10 }, 3600).unwrap();
    let seed = seed_upload_request(meta, publish_at);
    let document = build_document(&seed);
    let edited = parse_request(&document);
    let (p, a) = advance(p, Event::Edited(edited));
    let request = match a {
        Action::Upload(request) => request,
        other => panic!("expected an upload, got {:?}", other),
    };
    assert_eq!(request.privacy_status, "private");
    assert_eq!(request.publish_at, "2024-03-11T00:00:00+01:00");
    assert_eq!(request.title, "Demo");
    assert_eq!(request.tags, vec!["x".to_string()]);
    assert_eq!(request.category, "22");
    let (p, a) = advance(p, Event::Uploaded(Ok("xyz".to_string())));
    assert_eq!(a, Action::AttachThumbnail("xyz".to_string()));
    let (p, a) = advance(p, Event::ThumbnailDone(Ok(())));
    assert_eq!(a, Action::Report(Outcome::Completed("xyz".to_string())));
    assert_eq!(p, Phase::Finished);
    assert_eq!(advance(p, Event::Begin), (Phase::Finished, Action::Stop));
}

#[test]
fn empty_search_reports_no_videos_and_stops() {
    let (p, _) = advance(Phase::Start, Event::Begin);
    let (p, a) = advance(p, Event::SearchDone(Ok(vec![])));
    assert_eq!(a, Action::Report(Outcome::NoVideos));
    assert_eq!(p, Phase::Finished);
    assert_eq!(advance(p, Event::Selected("abc".to_string())), (Phase::Finished, Action::Stop));
}

#[test]
fn thumbnail_failure_keeps_the_upload_and_reports_both() {
    let (p, a) = advance(Phase::Uploading, Event::Uploaded(Ok("xyz".to_string())));
    assert_eq!(a, Action::AttachThumbnail("xyz".to_string()));
    let err = YtError::Thumbnail("refused".to_string());
    let (p, a) = advance(p, Event::ThumbnailDone(Err(err.clone())));
    assert_eq!(a, Action::Report(Outcome::ThumbnailFailed("xyz".to_string(), err)));
    assert_eq!(p, Phase::Finished);
}

#[test]
fn any_failure_before_upload_ends_the_run() {
    let err = YtError::RemoteApi("down".to_string());
    assert_eq!(
        advance(Phase::Searching, Event::SearchDone(Err(err.clone()))),
        (Phase::Finished, Action::Report(Outcome::Failed(err.clone())))
    );
    assert_eq!(
        advance(Phase::Fetching, Event::Fetched(Err(YtError::NotFound("a".to_string())))),
        (Phase::Finished, Action::Report(Outcome::Failed(YtError::NotFound("a".to_string()))))
    );
    let malformed = YtError::MalformedDocument("category".to_string());
    assert_eq!(
        advance(Phase::Editing, Event::Edited(Err(malformed.clone()))),
        (Phase::Finished, Action::Report(Outcome::Failed(malformed)))
    );
    assert_eq!(
        advance(Phase::Uploading, Event::Uploaded(Err(YtError::MissingId))),
        (Phase::Finished, Action::Report(Outcome::Failed(YtError::MissingId)))
    );
}

#[test]
fn unexpected_event_is_out_of_order() {
    assert_eq!(
        advance(Phase::Start, Event::Selected("a".to_string())),
        (Phase::Finished, Action::Report(Outcome::OutOfOrder))
    );
}
