//! What the bot reads of an item of the feed.

use vstd::prelude::*;

use crate::text::opt_text;

verus! {

/// An item of the feed, as far as the bot reads it.
#[derive(Debug)]
pub struct FeedEntry {
    /// URL of the episode (`<link>`)
    pub link: Option<String>,
    /// Episode title (`<title>`)
    pub title: Option<String>,
    /// Full episode description (`<content:encoded>`)
    pub content: Option<String>,
}

/// The texts of a `FeedEntry`.
pub struct EntryView {
    pub link: Option<Seq<char>>,
    pub title: Option<Seq<char>>,
    pub content: Option<Seq<char>>,
}

impl View for FeedEntry {
    type V = EntryView;

    open spec fn view(&self) -> EntryView {
        EntryView {
            link: opt_text(self.link),
            title: opt_text(self.title),
            content: opt_text(self.content),
        }
    }
}

/// The texts of a list of entries.
pub open spec fn entry_views(list: Seq<FeedEntry>) -> Seq<EntryView> {
    list.map_values(|e: FeedEntry| e@)
}

/// An entry is seen by what it has of link, title and content, and a list of entries
/// by its entries, in order.
pub proof fn law_entry_views(e: FeedEntry, list: Seq<FeedEntry>)
    ensures
        match e.link {
            Some(t) => e@.link == Some(t@),
            None => e@.link is None,
        },
        match e.title {
            Some(t) => e@.title == Some(t@),
            None => e@.title is None,
        },
        match e.content {
            Some(t) => e@.content == Some(t@),
            None => e@.content is None,
        },
        entry_views(list).len() == list.len(),
        forall|k: int| 0 <= k < list.len() ==> #[trigger] entry_views(list)[k] == list[k]@,
{
}

} // verus!
