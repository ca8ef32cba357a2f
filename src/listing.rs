use vstd::prelude::*;
use crate::model::{VideoSearchResponse, YtError};

verus! {

/// One item of a search answer as the platform returned it: either part may be absent.
#[derive(Debug, Clone, PartialEq, Eq)]
pub struct SearchItem {
    pub video_id: Option<String>,
    pub title: Option<String>,
}

/// An item can be listed when it carries both an identifier and a title.
pub open spec fn usable(item: SearchItem) -> bool {
    item.video_id is Some && item.title is Some
}

/// The (id, title) pairs of the usable items, in the order of the answer.
pub open spec fn summaries_of(items: Seq<SearchItem>) -> Seq<(Seq<char>, Seq<char>)>
    decreases items.len(),
{
    if items.len() == 0 {
        Seq::empty()
    } else {
        let rest = summaries_of(items.drop_last());
        let last = items.last();
        if usable(last) {
            rest.push((last.video_id->0@, last.title->0@))
        } else {
            rest
        }
    }
}

/// The (id, title) pairs of a listing.
pub open spec fn listing_view(v: Seq<VideoSearchResponse>) -> Seq<(Seq<char>, Seq<char>)> {
    v.map_values(|r: VideoSearchResponse| (r.id@, r.title@))
}

/// The number of usable items.
pub open spec fn usable_count(items: Seq<SearchItem>) -> nat
    decreases items.len(),
{
    if items.len() == 0 {
        0
    } else {
        usable_count(items.drop_last()) + if usable(items.last()) { 1nat } else { 0nat }
    }
}

/// The listing of a search answer: every item with an id and a title, in order.
/// Items missing either are skipped; an answer without its item list is an error.
pub fn collect_search_results(items: Option<Vec<SearchItem>>) -> (r: Result<
    Vec<VideoSearchResponse>,
    YtError,
>)
    ensures
        items is None <==> r == Err::<Vec<VideoSearchResponse>, YtError>(YtError::EmptyResult),
        items is Some ==> r is Ok && listing_view(r->Ok_0@) == summaries_of(items->0@),
{
    match items {
        None => Err(YtError::EmptyResult),
        Some(list) => {
            let mut out: Vec<VideoSearchResponse> = Vec::new();
            let mut i: usize = 0;
            while i < list.len()
                invariant
                    i <= list.len(),
                    listing_view(out@) == summaries_of(list@.take(i as int)),
                decreases list.len() - i,
            {
                let item = &list[i];
                proof {
                    assert(list@.take(i + 1).drop_last() =~= list@.take(i as int));
                }
                match (&item.video_id, &item.title) {
                    (Some(id), Some(title)) => {
                        out.push(VideoSearchResponse { id: id.clone(), title: title.clone() });
                        assert(listing_view(out@) =~= summaries_of(list@.take(i + 1)));
                    },
                    _ => {},
                }
                i = i + 1;
            }
            assert(list@.take(list.len() as int) =~= list@);
            Ok(out)
        },
    }
}

/// The listing holds exactly one entry per usable item of the answer.
pub proof fn lemma_listing_length(items: Seq<SearchItem>)
    ensures
        summaries_of(items).len() == usable_count(items),
        usable_count(items) <= items.len(),
    decreases items.len(),
{
    if items.len() > 0 {
        lemma_listing_length(items.drop_last());
    }
}

/// Searching keeps, of N items of which M carry both an id and a title, exactly
/// those M, in the order of the answer: the listing is the usable items' pairs.
pub proof fn lemma_search_keeps_usable_items(items: Seq<SearchItem>, r: Seq<VideoSearchResponse>)
    requires
        listing_view(r) == summaries_of(items),
    ensures
        r.len() == usable_count(items),
        usable_count(items) <= items.len(),
        forall|k: int| 0 <= k < r.len() ==> (#[trigger] r[k]).id@ == summaries_of(items)[k].0
            && r[k].title@ == summaries_of(items)[k].1,
{
    lemma_listing_length(items);
    assert(listing_view(r).len() == r.len());
    assert forall|k: int| 0 <= k < r.len() implies (#[trigger] r[k]).id@ == summaries_of(items)[k].0
        && r[k].title@ == summaries_of(items)[k].1 by {
        assert(listing_view(r)[k] == (r[k].id@, r[k].title@));
    }
}

} // verus!
