use vstd::prelude::*;
use crate::model::{strings_view, VideoListResponse, VideoUploadRequest, YtError};

verus! {

/// The descriptive part of a video as the platform returned it: any field may be absent.
#[derive(Debug, Clone, PartialEq, Eq)]
pub struct VideoSnippetData {
    pub title: Option<String>,
    pub description: Option<String>,
    pub tags: Option<Vec<String>>,
    pub category_id: Option<String>,
}

/// One video of a fetch answer: its descriptive part may be absent.
#[derive(Debug, Clone, PartialEq, Eq)]
pub struct VideoItem {
    pub snippet: Option<VideoSnippetData>,
}

/// The field named in the error for a snippet that lacks a required field, if any.
pub open spec fn missing_field(s: VideoSnippetData) -> Option<Seq<char>> {
    if s.title is None {
        Some("title"@)
    } else if s.description is None {
        Some("description"@)
    } else if s.category_id is None {
        Some("category"@)
    } else {
        None
    }
}

/// The tags of a snippet: none when the field is absent.
pub open spec fn tags_or_empty(s: VideoSnippetData) -> Seq<Seq<char>> {
    match s.tags {
        Some(t) => strings_view(t@),
        None => Seq::empty(),
    }
}

fn named(s: &str) -> (r: String)
    ensures
        r@ == s@,
{
    s.to_string()
}

/// The metadata of the video `video_id` from the answer to a fetch: the first
/// item returned, which must carry a title, a description and a category.
/// Tags are optional and default to none.
pub fn video_data_from_response(video_id: &str, items: Option<Vec<VideoItem>>) -> (r: Result<
    VideoListResponse,
    YtError,
>)
    ensures
        (items is None || items->0@.len() == 0) ==> (r matches Err(YtError::NotFound(m)) && m@
            == video_id@),
        (items is Some && items->0@.len() > 0) ==> ({
            let first = items->0@[0];
            match first.snippet {
                None => r matches Err(YtError::IncompleteMetadata(f)) && f@ == "snippet"@,
                Some(s) => match missing_field(s) {
                    Some(name) => r matches Err(YtError::IncompleteMetadata(f)) && f@ == name,
                    None => r matches Ok(v) && v.id@ == video_id@ && v.title@ == s.title->0@
                        && v.description@ == s.description->0@ && strings_view(v.tags@)
                        == tags_or_empty(s) && v.category@ == s.category_id->0@,
                },
            }
        }),
{
    proof {
        reveal_strlit("title");
        reveal_strlit("description");
        reveal_strlit("category");
        reveal_strlit("snippet");
    }
    let list = match items {
        None => return Err(YtError::NotFound(named(video_id))),
        Some(list) => list,
    };
    if list.len() == 0 {
        return Err(YtError::NotFound(named(video_id)));
    }
    let first = &list[0];
    let snippet = match &first.snippet {
        None => return Err(YtError::IncompleteMetadata(named("snippet"))),
        Some(s) => s,
    };
    let title = match &snippet.title {
        None => return Err(YtError::IncompleteMetadata(named("title"))),
        Some(t) => t.clone(),
    };
    let description = match &snippet.description {
        None => return Err(YtError::IncompleteMetadata(named("description"))),
        Some(d) => d.clone(),
    };
    let category = match &snippet.category_id {
        None => return Err(YtError::IncompleteMetadata(named("category"))),
        Some(c) => c.clone(),
    };
    let tags = match &snippet.tags {
        None => Vec::new(),
        Some(t) => clone_strings(t),
    };
    Ok(VideoListResponse { id: named(video_id), title, description, tags, category })
}

/// A copy of a list of strings.
pub fn clone_strings(v: &Vec<String>) -> (r: Vec<String>)
    ensures
        strings_view(r@) == strings_view(v@),
{
    let mut out: Vec<String> = Vec::new();
    let mut i: usize = 0;
    while i < v.len()
        invariant
            i <= v.len(),
            strings_view(out@) =~= strings_view(v@.take(i as int)),
        decreases v.len() - i,
    {
        let s = v[i].clone();
        proof {
            assert(strings_view(out@.push(s)) =~= strings_view(v@.take(i as int)).push(s@));
            assert(v@.take(i + 1) =~= v@.take(i as int).push(v@[i as int]));
            assert(strings_view(v@.take(i + 1)) =~= strings_view(v@.take(i as int)).push(
                v@[i as int]@,
            ));
        }
        out.push(s);
        i = i + 1;
    }
    assert(v@.take(v.len() as int) =~= v@);
    out
}

/// The privacy every new upload starts with.
pub open spec fn default_privacy() -> Seq<char> {
    "private"@
}

/// The request a new upload is seeded with: the source video's title,
/// description, tags and category, private, released at `publish_at`.
pub fn seed_upload_request(source: VideoListResponse, publish_at: String) -> (r:
    VideoUploadRequest)
    ensures
        r.title@ == source.title@,
        r.description@ == source.description@,
        strings_view(r.tags@) == strings_view(source.tags@),
        r.category@ == source.category@,
        r.privacy_status@ == default_privacy(),
        r.publish_at@ == publish_at@,
{
    proof {
        reveal_strlit("private");
    }
    VideoUploadRequest {
        title: source.title,
        description: source.description,
        tags: source.tags,
        category: source.category,
        privacy_status: named("private"),
        publish_at,
    }
}

/// A fetched video without tags seeds a request with no tags, never an error.
pub proof fn lemma_missing_tags_seed_empty(
    video_id: Seq<char>,
    s: VideoSnippetData,
    v: VideoListResponse,
    seed: VideoUploadRequest,
)
    requires
        s.tags is None,
        missing_field(s) is None,
        strings_view(v.tags@) == tags_or_empty(s),
        strings_view(seed.tags@) == strings_view(v.tags@),
    ensures
        seed.tags@.len() == 0,
{
    assert(strings_view(seed.tags@).len() == 0);
}

/// The identifier of a new video from the platform's answer to an upload;
/// an answer without one is an error.
pub fn uploaded_video_id(id: Option<String>) -> (r: Result<String, YtError>)
    ensures
        match id {
            Some(v) => r == Ok::<String, YtError>(v),
            None => r == Err::<String, YtError>(YtError::MissingId),
        },
{
    match id {
        Some(v) => Ok(v),
        None => Err(YtError::MissingId),
    }
}

} // verus!
