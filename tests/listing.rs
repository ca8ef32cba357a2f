use ytup::listing::{collect_search_results, SearchItem};
use ytup::model::YtError;

fn item(id: Option<&str>, title: Option<&str>) -> SearchItem {
    SearchItem { video_id: id.map(|s| s.to_string()), title: title.map(|s| s.to_string()) }
}

#[test]
fn search_keeps_only_items_with_id_and_title_in_order() {
    let items = vec![
        item(Some("a"), Some("First")),
        item(None, Some("No id")),
        item(Some("b"), None),
        item(Some("c"), Some("Third")),
        item(None, None),
        item(Some("d"), Some("Fourth")),
    ];
    let listing = collect_search_results(Some(items)).unwrap();
    let pairs: Vec<(String, String)> =
        listing.iter().map(|v| (v.id.clone(), v.title.clone())).collect();
    assert_eq!(
        pairs,
        vec![
            ("a".to_string(), "First".to_string()),
            ("c".to_string(), "Third".to_string()),
            ("d".to_string(), "Fourth".to_string()),
        ]
    );
    assert_eq!(listing[0].display_text(), "First");
}

#[test]
fn search_with_present_but_empty_items_is_an_empty_listing() {
    assert_eq!(collect_search_results(Some(vec![])), Ok(vec![]));
}

#[test]
fn search_without_items_field_is_an_empty_result_error() {
    assert_eq!(collect_search_results(None), Err(YtError::EmptyResult));
}

#[test]
fn search_where_every_item_is_malformed_is_empty_not_an_error() {
    let items = vec![item(None, Some("x")), item(Some("y"), None)];
    assert_eq!(collect_search_results(Some(items)), Ok(vec![]));
}
