use vstd::prelude::*;

verus! {

/// One video of a search listing: its identifier and its display title.
#[derive(Debug, Clone, PartialEq, Eq)]
pub struct VideoSearchResponse {
    pub id: String,
    pub title: String,
}

impl VideoSearchResponse {
    /// The text shown for this video in a selection list: its title.
    pub fn display_text(&self) -> (r: String)
        ensures
            r@ == self.title@,
    {
        self.title.clone()
    }
}

/// The metadata of one published video.
#[derive(Debug, Clone, PartialEq, Eq)]
pub struct VideoListResponse {
    pub id: String,
    pub title: String,
    pub description: String,
    pub tags: Vec<String>,
    pub category: String,
}

/// What a new upload is published with; also the content of the editable document.
#[derive(Debug, Clone, PartialEq, Eq)]
pub struct VideoUploadRequest {
    pub title: String,
    pub description: String,
    pub tags: Vec<String>,
    pub category: String,
    pub privacy_status: String,
    pub publish_at: String,
}

/// The characters of each string of a list, in order.
pub open spec fn strings_view(v: Seq<String>) -> Seq<Seq<char>> {
    v.map_values(|s: String| s@)
}

/// The six fields of a request as character sequences.
pub struct RequestView {
    pub title: Seq<char>,
    pub description: Seq<char>,
    pub tags: Seq<Seq<char>>,
    pub category: Seq<char>,
    pub privacy_status: Seq<char>,
    pub publish_at: Seq<char>,
}

impl View for VideoUploadRequest {
    type V = RequestView;

    open spec fn view(&self) -> RequestView {
        RequestView {
            title: self.title@,
            description: self.description@,
            tags: strings_view(self.tags@),
            category: self.category@,
            privacy_status: self.privacy_status@,
            publish_at: self.publish_at@,
        }
    }
}

/// Everything that can stop a run.
#[derive(Debug, Clone, PartialEq, Eq)]
pub enum YtError {
    /// The platform could not be reached, or refused a call.
    RemoteApi(String),
    /// A search answer came back without its list of items.
    EmptyResult,
    /// No video was returned for the identifier given.
    NotFound(String),
    /// A required metadata field (named) was missing from the platform's answer.
    IncompleteMetadata(String),
    /// The platform refused the upload.
    Upload(String),
    /// The platform accepted an upload but did not return its identifier.
    MissingId,
    /// The platform refused the thumbnail.
    Thumbnail(String),
    /// The edited document does not have the required shape; the text says where.
    MalformedDocument(String),
}

} // verus!
