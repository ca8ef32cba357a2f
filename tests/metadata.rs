use ytup::metadata::{
    clone_strings, seed_upload_request, uploaded_video_id, video_data_from_response,
    VideoItem, VideoSnippetData,
};
use ytup::model::{VideoListResponse, YtError};

fn snippet(
    title: Option<&str>,
    description: Option<&str>,
    tags: Option<Vec<&str>>,
    category: Option<&str>,
) -> VideoSnippetData {
    VideoSnippetData {
        title: title.map(|s| s.to_string()),
        description: description.map(|s| s.to_string()),
        tags: tags.map(|t| t.into_iter().map(|s| s.to_string()).collect()),
        category_id: category.map(|s| s.to_string()),
    }
}

fn one(s: VideoSnippetData) -> Option<Vec<VideoItem>> {
    Some(vec![VideoItem { snippet: Some(s) }])
}

#[test]
fn fetch_reads_every_field() {
    let r = video_data_from_response(
        "abc",
        one(snippet(Some("Demo"), Some("d"), Some(vec!["x", "y"]), Some("22"))),
    );
    assert_eq!(
        r,
        Ok(VideoListResponse {
            id: "abc".to_string(),
            title: "Demo".to_string(),
            description: "d".to_string(),
            tags: vec!["x".to_string(), "y".to_string()],
            category: "22".to_string(),
        })
    );
}

#[test]
fn fetch_without_tags_gives_empty_tags_and_seed() {
    let meta =
        video_data_from_response("abc", one(snippet(Some("T"), Some("D"), None, Some("10"))))
            .unwrap();
    assert!(meta.tags.is_empty());
    let seed = seed_upload_request(meta, "2024-03-11T00:00:00+01:00".to_string());
    assert!(seed.tags.is_empty());
    assert_eq!(seed.privacy_status, "private");
    assert_eq!(seed.publish_at, "2024-03-11T00:00:00+01:00");
    assert_eq!(seed.title, "T");
    assert_eq!(seed.description, "D");
    assert_eq!(seed.category, "10");
}

#[test]
fn fetch_with_no_video_is_not_found() {
    assert_eq!(
        video_data_from_response("zz", Some(vec![])),
        Err(YtError::NotFound("zz".to_string()))
    );
    assert_eq!(video_data_from_response("zz", None), Err(YtError::NotFound("zz".to_string())));
}

#[test]
fn fetch_names_the_missing_field() {
    let missing_title = snippet(None, Some("d"), None, Some("1"));
    let missing_description = snippet(Some("t"), None, None, Some("1"));
    let missing_category = snippet(Some("t"), Some("d"), None, None);
    assert_eq!(
        video_data_from_response("a", one(missing_title)),
        Err(YtError::IncompleteMetadata("title".to_string()))
    );
    assert_eq!(
        video_data_from_response("a", one(missing_description)),
        Err(YtError::IncompleteMetadata("description".to_string()))
    );
    assert_eq!(
        video_data_from_response("a", one(missing_category)),
        Err(YtError::IncompleteMetadata("category".to_string()))
    );
    assert_eq!(
        video_data_from_response("a", Some(vec![VideoItem { snippet: None }])),
        Err(YtError::IncompleteMetadata("snippet".to_string()))
    );
}

#[test]
fn upload_answer_without_id_is_missing_id() {
    assert_eq!(uploaded_video_id(Some("xyz".to_string())), Ok("xyz".to_string()));
    assert_eq!(uploaded_video_id(None), Err(YtError::MissingId));
}

#[test]
fn cloning_tags_keeps_them_in_order() {
    let tags = vec!["b".to_string(), "a".to_string()];
    assert_eq!(clone_strings(&tags), tags);
}
