use ytup::document::{build_document, commentary, parse_request, serialize_request};
use ytup::model::{VideoUploadRequest, YtError};

fn request(tags: Vec<&str>) -> VideoUploadRequest {
    VideoUploadRequest {
        title: "My \"best\" video".to_string(),
        description: "line one\nline two with a \\ backslash\tand a tab: ok # not a comment"
            .to_string(),
        tags: tags.into_iter().map(|s| s.to_string()).collect(),
        category: "22".to_string(),
        privacy_status: "private".to_string(),
        publish_at: "2024-03-11T00:00:00+01:00".to_string(),
    }
}

#[test]
fn serialized_text_is_exact() {
    let r = VideoUploadRequest {
        title: "a\"b".to_string(),
        description: "x\ny".to_string(),
        tags: vec!["t1".to_string(), "t\\2".to_string()],
        category: "22".to_string(),
        privacy_status: "private".to_string(),
        publish_at: "".to_string(),
    };
    assert_eq!(
        serialize_request(&r),
        "title: \"a\\\"b\"\ndescription: \"x\\ny\"\ntags:\n- \"t1\"\n- \"t\\\\2\"\ncategory: \"22\"\nprivacy_status: \"private\"\npublish_at: \"\"\n"
    );
}

#[test]
fn round_trip_with_commentary_returns_the_request() {
    for tags in [vec![], vec!["x"], vec!["one", "two \"quoted\"", "- dash", "#hash"]] {
        let r = request(tags);
        let doc = build_document(&r);
        assert_eq!(parse_request(&doc), Ok(r.clone()));
        let plain = serialize_request(&r);
        assert_eq!(parse_request(&plain), Ok(r.clone()));
        let with_notes = format!("{}{}", plain, commentary());
        assert_eq!(parse_request(&with_notes), Ok(r));
    }
}

#[test]
fn commentary_lists_category_codes() {
    let c = commentary();
    assert!(c.starts_with('\n'));
    assert!(c.contains("\"People & Blogs\":        22"));
    assert!(c.lines().all(|l| l.is_empty() || l.starts_with('#')));
}

#[test]
fn missing_category_is_malformed_naming_category() {
    let doc = "title: \"t\"\ndescription: \"d\"\ntags: []\nprivacy_status: \"private\"\npublish_at: \"\"\n";
    assert_eq!(parse_request(doc), Err(YtError::MalformedDocument("category".to_string())));
}

#[test]
fn user_edits_in_plain_style_are_accepted() {
    let doc = "# notes first\n\ncategory: 10   \ntitle:   Hello world\ndescription: \"d\"\ntags:\n- a\n# between items\n- \"b c\"\nprivacy_status: unlisted\npublish_at:\n# trailing notes\n";
    let r = parse_request(doc).unwrap();
    assert_eq!(r.title, "Hello world");
    assert_eq!(r.category, "10");
    assert_eq!(r.tags, vec!["a".to_string(), "b c".to_string()]);
    assert_eq!(r.privacy_status, "unlisted");
    assert_eq!(r.publish_at, "");
}

#[test]
fn indented_items_inline_lists_quotes_and_extra_keys_are_accepted() {
    let doc = "title: 'it''s here'\ndescription: \"d\"\ncolour: red\nextra:\n  - ignored\n  nested: value\ntags:\n  - \"x\"\n  - y\ncategory: '22'\nprivacy_status: private\npublish_at: \"\"\n";
    let r = parse_request(doc).unwrap();
    assert_eq!(r.title, "it's here");
    assert_eq!(r.tags, vec!["x".to_string(), "y".to_string()]);
    assert_eq!(r.category, "22");

    let inline = "title: t\ndescription: d\ntags: [a, \"b, c\", 'd' ]\ncategory: 1\nprivacy_status: p\npublish_at: x\n";
    let r = parse_request(inline).unwrap();
    assert_eq!(r.tags, vec!["a".to_string(), "b, c".to_string(), "d".to_string()]);

    let quoted_inline = "title: t\ndescription: d\ntags: [\"x\"]\ncategory: 1\nprivacy_status: p\npublish_at: x\n";
    assert_eq!(parse_request(quoted_inline).unwrap().tags, vec!["x".to_string()]);
}

#[test]
fn malformed_documents_are_rejected() {
    let base = "title: \"t\"\ndescription: \"d\"\ncategory: \"1\"\nprivacy_status: \"p\"\npublish_at: \"x\"\n";
    let cases = [
        (format!("{}tags: []\ntitle: \"again\"\n", base), "duplicate key"),
        (format!("{}tags: []\njust text\n", base), "expected a key"),
        (format!("{}tags: a, b\n", base), "tags must be a list"),
        (format!("{}tags: [a, b\n", base), "tags must be a list"),
        (format!("{}- \"stray\"\ntags: []\n", base), "unexpected list item"),
        (format!("{}tags: []\n", base.replace("\"t\"", "\"unterminated")), "malformed value"),
        (format!("{}tags: []\n", base.replace("\"d\"", "\"bad \\q escape\"")), "malformed value"),
    ];
    for (doc, message) in cases {
        assert_eq!(parse_request(&doc), Err(YtError::MalformedDocument(message.to_string())));
    }
    assert_eq!(parse_request(base), Err(YtError::MalformedDocument("tags".to_string())));
    assert_eq!(parse_request(""), Err(YtError::MalformedDocument("title".to_string())));
}
