//! Which episodes of the feed are new, and how it is recorded that they were
//! announced.

use vstd::hash_set::StringHashSet;
use vstd::prelude::*;
use vstd::string::*;

use crate::feed::content::{preprocess_content, preprocessed};
use crate::feed::entry::{entry_views, EntryView, FeedEntry};
use crate::outside::{parsed_channel, rss_entries};
use crate::text::{decimal, free_of, lines, opt_text, or_empty, split, strip_cr, texts};
use crate::text::{concat_four, decimal_of, lines_of};
use crate::text::{lemma_split_append, lemma_split_nonempty};

verus! {

/// A new (not yet processed) item from the RSS feed
#[derive(Debug)]
pub struct FeedItem {
    /// URL of the episode (`<link>`)
    pub url: String,
    /// Episode title (`<title>`)
    pub title: String,
    /// Full episode description (`<content:encoded>`)
    pub content: String,
}

/// The texts of a `FeedItem`.
pub struct ItemView {
    pub url: Seq<char>,
    pub title: Seq<char>,
    pub content: Seq<char>,
}

impl View for FeedItem {
    type V = ItemView;

    open spec fn view(&self) -> ItemView {
        ItemView { url: self.url@, title: self.title@, content: self.content@ }
    }
}

/// The texts of a list of items.
pub open spec fn item_views(list: Seq<FeedItem>) -> Seq<ItemView> {
    list.map_values(|i: FeedItem| i@)
}

/// Why the new episodes could not be told.
#[derive(Debug)]
pub enum FeedError {
    InvalidProxy { url: String, cause: String },
    Client { cause: String },
    Request { url: String, cause: String },
    Body { cause: String },
    Parse { cause: String },
}

impl FeedError {
    /// The text that is shown for the error.
    pub open spec fn text(self) -> Seq<char> {
        match self {
            FeedError::InvalidProxy { url, cause } => "Invalid proxy URL '"@ + url@ + "': "@
                + cause@,
            FeedError::Client { cause } => "Failed to build HTTP client: "@ + cause@,
            FeedError::Request { url, cause } => "Failed to fetch RSS feed '"@ + url@ + "': "@
                + cause@,
            FeedError::Body { cause } => "Failed to read RSS response body: "@ + cause@,
            FeedError::Parse { cause } => "Failed to parse RSS feed: "@ + cause@,
        }
    }

    /// The text that is shown for the error.
    pub fn message(&self) -> (r: String)
        ensures
            r@ == self.text(),
    {
        match self {
            FeedError::InvalidProxy { url, cause } => concat_four(
                "Invalid proxy URL '",
                url.as_str(),
                "': ",
                cause.as_str(),
            ),
            FeedError::Client { cause } => {
                let mut r = "Failed to build HTTP client: ".to_owned();
                r.append(cause.as_str());
                r
            },
            FeedError::Request { url, cause } => concat_four(
                "Failed to fetch RSS feed '",
                url.as_str(),
                "': ",
                cause.as_str(),
            ),
            FeedError::Body { cause } => {
                let mut r = "Failed to read RSS response body: ".to_owned();
                r.append(cause.as_str());
                r
            },
            FeedError::Parse { cause } => {
                let mut r = "Failed to parse RSS feed: ".to_owned();
                r.append(cause.as_str());
                r
            },
        }
    }
}

/// An entry is new if it has a link that is no line of what was recorded.
pub open spec fn is_new(e: EntryView, processed: Seq<char>) -> bool {
    e.link is Some && !lines(processed).contains(e.link->0)
}

/// What is announced for an entry.
pub open spec fn item_of(e: EntryView) -> ItemView {
    ItemView {
        url: or_empty(e.link),
        title: or_empty(e.title),
        content: preprocessed(or_empty(e.content)),
    }
}

/// The new items of a feed, in the order of the feed.
pub open spec fn new_items(entries: Seq<EntryView>, processed: Seq<char>) -> Seq<ItemView> {
    entries.filter(|e: EntryView| is_new(e, processed)).map_values(|e: EntryView| item_of(e))
}

fn text_or_empty(s: &Option<String>) -> (r: String)
    ensures
        r@ == or_empty(opt_text(*s)),
{
    match s {
        Some(t) => t.clone(),
        None => String::new(),
    }
}

/// The entries of the feed whose link is not among the lines of `processed`, with
/// their descriptions preprocessed.
pub fn select_new_items(entries: &Vec<FeedEntry>, processed: &str) -> (r: Vec<FeedItem>)
    ensures
        item_views(r@) == new_items(entry_views(entries@), processed@),
{
    let recorded = lines_of(processed);
    let ghost known = lines(processed@);
    let mut existing = StringHashSet::new();
    for i in 0..recorded.len()
        invariant
            known == texts(recorded@),
            forall|x: Seq<char>| #[trigger] existing@.contains(x) <==> known.take(i as int).contains(x),
    {
        existing.insert(recorded[i].clone());
        proof {
            let ghost t = known.take(i + 1);
            assert(t =~= known.take(i as int).push(recorded@[i as int]@));
            assert forall|x: Seq<char>| #[trigger]
                existing@.contains(x) <==> t.contains(x) by {
                if known.take(i as int).contains(x) {
                    let j = choose|j: int|
                        0 <= j < known.take(i as int).len() && known.take(i as int)[j] == x;
                    assert(t[j] == x);
                }
                if x == recorded@[i as int]@ {
                    assert(t[i as int] == x);
                }
            }
        }
    }
    assert(known.take(known.len() as int) =~= known);
    let ghost all = entry_views(entries@);
    let ghost pick = |e: EntryView| is_new(e, processed@);
    let ghost make = |e: EntryView| item_of(e);
    let mut r: Vec<FeedItem> = Vec::new();
    proof {
        reveal(Seq::filter);
        assert(all.take(0).filter(pick).map_values(make) =~= Seq::empty());
    }
    for i in 0..entries.len()
        invariant
            all == entry_views(entries@),
            pick == (|e: EntryView| is_new(e, processed@)),
            make == (|e: EntryView| item_of(e)),
            forall|x: Seq<char>| #[trigger] existing@.contains(x) <==> lines(processed@).contains(x),
            item_views(r@) =~= all.take(i as int).filter(pick).map_values(make),
    {
        let ghost before = item_views(r@);
        let ghost e = all[i as int];
        proof {
            reveal(Seq::filter);
            assert(all.take(i + 1).drop_last() =~= all.take(i as int));
            assert(e == entries@[i as int]@);
        }
        let fresh: bool = match &entries[i].link {
            Some(link) => !existing.contains(link.as_str()),
            None => false,
        };
        if fresh {
            r.push(
                FeedItem {
                    url: text_or_empty(&entries[i].link),
                    title: text_or_empty(&entries[i].title),
                    content: preprocess_content(text_or_empty(&entries[i].content).as_str()),
                },
            );
            assert(item_views(r@) =~= before.push(item_of(e)));
            assert(all.take(i + 1).filter(pick).map_values(make) =~= before.push(item_of(e)));
        }
    }
    assert(all.take(all.len() as int) =~= all);
    r
}

/// The new items of the feed that was read as `parsed`.
pub fn new_items_of_channel(parsed: Result<Vec<FeedEntry>, String>, processed: &str) -> (r: Result<
    Vec<FeedItem>,
    FeedError,
>)
    ensures
        match parsed {
            Ok(entries) => r matches Ok(items) && item_views(items@) == new_items(
                entry_views(entries@),
                processed@,
            ),
            Err(e) => r matches Err(FeedError::Parse { cause }) && cause@ == e@,
        },
{
    match parsed {
        Ok(entries) => Ok(select_new_items(&entries, processed)),
        Err(e) => Err(FeedError::Parse { cause: e }),
    }
}

/// The new items of the feed with the given body: those whose link is not yet
/// among the lines of `processed`.
pub fn new_feed_items(body: &[u8], processed: &str) -> (r: Result<Vec<FeedItem>, FeedError>)
    ensures
        match parsed_channel(body@) {
            Ok(entries) => r matches Ok(items) && item_views(items@) == new_items(
                entries,
                processed@,
            ),
            Err(e) => r matches Err(FeedError::Parse { cause }) && cause@ == e,
        },
{
    new_items_of_channel(rss_entries(body), processed)
}

/// What is appended to the record for the items: the URL of each, and a line feed.
pub open spec fn recorded_text(items: Seq<ItemView>) -> Seq<char>
    decreases items.len(),
{
    if items.len() == 0 {
        Seq::empty()
    } else {
        recorded_text(items.drop_last()) + items.last().url + "\n"@
    }
}

/// The URLs of the items.
pub open spec fn item_urls(items: Seq<ItemView>) -> Seq<Seq<char>> {
    items.map_values(|i: ItemView| i.url)
}

/// A record that no line was left unfinished in.
pub open spec fn ends_with_line(processed: Seq<char>) -> bool {
    processed.len() == 0 || processed.last() == '\n'
}

/// A URL that is read back from the record as it was written: it holds no line
/// feed and does not end with a carriage return.
pub open spec fn recordable(url: Seq<char>) -> bool {
    free_of(url, '\n') && !(url.len() > 0 && url.last() == '\r')
}

proof fn lemma_line_added(processed: Seq<char>, url: Seq<char>)
    requires
        ends_with_line(processed),
        recordable(url),
    ensures
        lines(processed + url + "\n"@) == lines(processed).push(url),
        ends_with_line(processed + url + "\n"@),
{
    reveal_strlit("\n");
    let pieces = split(processed, '\n');
    let more = processed + url + "\n"@;
    lemma_split_nonempty(processed, '\n');
    lemma_split_append(processed, url, '\n');
    assert(pieces.last() =~= Seq::empty());
    assert(pieces.last() + url =~= url);
    assert(more.drop_last() =~= processed + url);
    assert(more.last() == '\n');
    assert(split(more, '\n') =~= pieces.drop_last().push(url).push(Seq::empty()));
    assert(split(more, '\n').drop_last() =~= pieces.drop_last().push(url));
    let strip = |p: Seq<char>| strip_cr(p);
    assert(pieces.drop_last().push(url).map_values(strip) =~= pieces.drop_last().map_values(
        strip,
    ).push(url));
}

/// What was recorded is read back: after the URLs of some items were appended, the
/// lines of the record are those that it had, followed by these URLs.
pub proof fn law_record_read_back(processed: Seq<char>, items: Seq<ItemView>)
    requires
        ends_with_line(processed),
        forall|k: int| 0 <= k < items.len() ==> recordable((#[trigger] items[k]).url),
    ensures
        lines(processed + recorded_text(items)) == lines(processed) + item_urls(items),
        ends_with_line(processed + recorded_text(items)),
    decreases items.len(),
{
    if items.len() == 0 {
        assert(processed + recorded_text(items) =~= processed);
        assert(lines(processed) + item_urls(items) =~= lines(processed));
    } else {
        let init = items.drop_last();
        assert forall|k: int| 0 <= k < init.len() implies recordable((#[trigger] init[k]).url) by {
            assert(recordable(items[k].url));
        }
        law_record_read_back(processed, init);
        let last = items[items.len() - 1];
        assert(recordable(last.url));
        lemma_line_added(processed + recorded_text(init), last.url);
        assert(processed + recorded_text(items) =~= processed + recorded_text(init) + last.url
            + "\n"@);
        assert(lines(processed) + item_urls(items) =~= (lines(processed) + item_urls(init)).push(
            last.url,
        ));
    }
}

/// Every item that is announced has a link that was not recorded before.
pub proof fn law_new_items_not_recorded(entries: Seq<EntryView>, processed: Seq<char>, k: int)
    requires
        0 <= k < new_items(entries, processed).len(),
    ensures
        !lines(processed).contains(new_items(entries, processed)[k].url),
        exists|e: EntryView|
            #![trigger entries.contains(e)]
            entries.contains(e) && e.link is Some && new_items(entries, processed)[k] == item_of(e),
{
    let pick = |e: EntryView| is_new(e, processed);
    let chosen = entries.filter(pick);
    entries.lemma_filter_pred(pick, k);
    assert(chosen.contains(chosen[k]));
    entries.lemma_filter_contains_rev(pick, chosen[k]);
}

/// An entry with a link that was not recorded before is announced.
pub proof fn law_unrecorded_announced(entries: Seq<EntryView>, processed: Seq<char>, i: int)
    requires
        0 <= i < entries.len(),
        entries[i].link is Some,
        !lines(processed).contains(entries[i].link->0),
    ensures
        new_items(entries, processed).contains(item_of(entries[i])),
{
    let pick = |e: EntryView| is_new(e, processed);
    let chosen = entries.filter(pick);
    entries.lemma_filter_contains(pick, i);
    let k = choose|k: int| 0 <= k < chosen.len() && chosen[k] == entries[i];
    assert(new_items(entries, processed)[k] == item_of(entries[i]));
}

/// Episodes are announced once: when the new items of a feed were recorded, the
/// same feed holds no new item.
pub proof fn law_announced_once(entries: Seq<EntryView>, processed: Seq<char>)
    requires
        ends_with_line(processed),
        forall|k: int|
            0 <= k < new_items(entries, processed).len() ==> recordable(
                (#[trigger] new_items(entries, processed)[k]).url,
            ),
    ensures
        new_items(
            entries,
            processed + recorded_text(new_items(entries, processed)),
        ).len() == 0,
{
    let items = new_items(entries, processed);
    let after = processed + recorded_text(items);
    law_record_read_back(processed, items);
    if new_items(entries, after).len() > 0 {
        let again = new_items(entries, after)[0];
        law_new_items_not_recorded(entries, after, 0);
        let e = choose|e: EntryView|
            #![trigger entries.contains(e)]
            entries.contains(e) && e.link is Some && again == item_of(e);
        let i = choose|i: int| 0 <= i < entries.len() && entries[i] == e;
        let known = lines(processed);
        if known.contains(e.link->0) {
            let j = choose|j: int| 0 <= j < known.len() && known[j] == e.link->0;
            assert(lines(after)[j] == e.link->0);
        } else {
            law_unrecorded_announced(entries, processed, i);
            let k = choose|k: int| 0 <= k < items.len() && items[k] == item_of(e);
            assert(lines(after)[known.len() + k] == e.link->0);
        }
    }
}

/// A later feed: after items were recorded, an entry is new exactly if it was new
/// before and its link is not among those of the items.
pub proof fn law_new_after_record(e: EntryView, processed: Seq<char>, items: Seq<ItemView>)
    requires
        ends_with_line(processed),
        forall|k: int| 0 <= k < items.len() ==> recordable((#[trigger] items[k]).url),
    ensures
        is_new(e, processed + recorded_text(items)) <==> is_new(e, processed) && !item_urls(
            items,
        ).contains(e.link->0),
{
    law_record_read_back(processed, items);
    if e.link is Some {
        let x = e.link->0;
        let all = lines(processed) + item_urls(items);
        if lines(processed).contains(x) {
            let j = choose|j: int| 0 <= j < lines(processed).len() && lines(processed)[j] == x;
            assert(all[j] == x);
        }
        if item_urls(items).contains(x) {
            let j = choose|j: int| 0 <= j < item_urls(items).len() && item_urls(items)[j] == x;
            assert(all[lines(processed).len() + j] == x);
        }
        if all.contains(x) {
            let j = choose|j: int| 0 <= j < all.len() && all[j] == x;
            if j < lines(processed).len() {
                assert(lines(processed)[j] == x);
            } else {
                assert(item_urls(items)[j - lines(processed).len()] == x);
            }
        }
    }
}

/// An item is seen by its three texts, and a list of items by its entries, in order.
pub proof fn law_item_views(item: FeedItem, list: Seq<FeedItem>)
    ensures
        item@.url == item.url@,
        item@.title == item.title@,
        item@.content == item.content@,
        item_views(list).len() == list.len(),
        forall|k: int| 0 <= k < list.len() ==> #[trigger] item_views(list)[k] == list[k]@,
{
}

/// A feed is read piece by piece: the new items of two feeds in one are those of the
/// first and then those of the second.
pub proof fn law_feeds_in_turn(a: Seq<EntryView>, b: Seq<EntryView>, processed: Seq<char>)
    ensures
        new_items(a + b, processed) == new_items(a, processed) + new_items(b, processed),
{
    let pick = |e: EntryView| is_new(e, processed);
    Seq::filter_distributes_over_add(a, b, pick);
    assert(new_items(a + b, processed) =~= new_items(a, processed) + new_items(b, processed));
}

/// A feed without entries has no new item. One entry gives one item if it has a link
/// that is no line of the record, and none otherwise; the item has the link as its
/// URL, the whole title and the preprocessed content, empty where the entry has none.
pub proof fn law_item_of_entry(e: EntryView, processed: Seq<char>)
    ensures
        new_items(Seq::empty(), processed).len() == 0,
        e.link is None ==> new_items(seq![e], processed).len() == 0,
        e.link matches Some(link) ==> {
            let items = new_items(seq![e], processed);
            &&& lines(processed).contains(link) ==> items.len() == 0
            &&& !lines(processed).contains(link) ==> {
                &&& items.len() == 1
                &&& items[0].url == link
                &&& match e.title {
                    Some(title) => items[0].title == title,
                    None => items[0].title.len() == 0,
                }
                &&& match e.content {
                    Some(content) => items[0].content == preprocessed(content),
                    None => items[0].content == preprocessed(Seq::empty()),
                }
            }
        },
{
    reveal(Seq::filter);
    let pick = |e: EntryView| is_new(e, processed);
    let one = seq![e];
    assert(one.drop_last() =~= Seq::empty());
    assert(Seq::<EntryView>::empty().filter(pick) =~= Seq::empty());
    assert(one.filter(pick) =~= if pick(e) { seq![e] } else { Seq::empty() });
}

/// Every announced item is made of an entry of the feed: its URL is the entry's link,
/// its title the entry's whole title, and its content the entry's, preprocessed.
pub proof fn law_item_fields(entries: Seq<EntryView>, processed: Seq<char>, k: int)
    requires
        0 <= k < new_items(entries, processed).len(),
    ensures
        exists|i: int|
            {
                let item = new_items(entries, processed)[k];
                let e = #[trigger] entries[i];
                &&& 0 <= i < entries.len()
                &&& e.link == Some(item.url)
                &&& match e.title {
                    Some(title) => item.title == title,
                    None => item.title.len() == 0,
                }
                &&& match e.content {
                    Some(content) => item.content == preprocessed(content),
                    None => item.content == preprocessed(Seq::empty()),
                }
            },
{
    law_new_items_not_recorded(entries, processed, k);
    let e = choose|e: EntryView|
        #![trigger entries.contains(e)]
        entries.contains(e) && e.link is Some && new_items(entries, processed)[k] == item_of(e);
    let i = choose|i: int| 0 <= i < entries.len() && entries[i] == e;
    assert(entries[i] == e);
}

/// What is recorded of no item is nothing, of one its URL and a line feed, and of two
/// lists what is recorded of the first and then of the second.
pub proof fn law_recorded_text(item: ItemView, a: Seq<ItemView>, b: Seq<ItemView>)
    ensures
        recorded_text(Seq::empty()).len() == 0,
        recorded_text(seq![item]) == item.url + seq!['\n'],
        recorded_text(a + b) == recorded_text(a) + recorded_text(b),
    decreases b.len(),
{
    reveal_strlit("\n");
    assert("\n"@ =~= seq!['\n']);
    assert(seq![item].drop_last() =~= Seq::empty());
    assert(recorded_text(seq![item].drop_last()) =~= Seq::empty());
    assert(recorded_text(seq![item]) =~= item.url + seq!['\n']);
    if b.len() == 0 {
        assert(a + b =~= a);
        assert(recorded_text(a) + recorded_text(b) =~= recorded_text(a));
    } else {
        law_recorded_text(item, a, b.drop_last());
        assert((a + b).drop_last() =~= a + b.drop_last());
        assert(recorded_text(a + b) =~= recorded_text(a) + recorded_text(b));
    }
}

/// The errors of fetching the feed, in words.
pub proof fn law_feed_errors(url: String, cause: String)
    ensures
        (FeedError::InvalidProxy { url, cause }).text() == "Invalid proxy URL '"@ + url@ + "': "@
            + cause@,
        (FeedError::Client { cause }).text() == "Failed to build HTTP client: "@ + cause@,
        (FeedError::Request { url, cause }).text() == "Failed to fetch RSS feed '"@ + url@ + "': "@
            + cause@,
        (FeedError::Body { cause }).text() == "Failed to read RSS response body: "@ + cause@,
        (FeedError::Parse { cause }).text() == "Failed to parse RSS feed: "@ + cause@,
{
}

/// What is to be done to record announced items.
#[derive(Debug)]
pub enum AppendPlan {
    /// There is nothing to record; the report says so.
    Nothing { report: String },
    /// The text is appended to the file; the report is shown when it was.
    Append { text: String, report: String },
}

/// How the URLs of `items` are recorded in the file at `path`: each as a line of
/// its own, appended to the file.
pub fn append_urls_plan(items: &Vec<FeedItem>, path: &str) -> (r: AppendPlan)
    ensures
        match r {
            AppendPlan::Nothing { report } => items@.len() == 0 && report@
                == "No new URLs to save."@,
            AppendPlan::Append { text, report } => {
                &&& items@.len() > 0
                &&& text@ == recorded_text(item_views(items@))
                &&& report@ == "Saved "@ + decimal(items@.len()) + " new URL(s) to '"@ + path@ + "'."@
            },
        },
{
    if items.len() == 0 {
        return AppendPlan::Nothing { report: "No new URLs to save.".to_owned() };
    }
    let ghost all = item_views(items@);
    let mut text = String::new();
    for i in 0..items.len()
        invariant
            all == item_views(items@),
            text@ == recorded_text(all.take(i as int)),
    {
        assert(all.take(i + 1).drop_last() =~= all.take(i as int));
        text.append(items[i].url.as_str());
        text.append("\n");
    }
    assert(all.take(all.len() as int) =~= all);
    let n: usize = items.len();
    let mut report = "Saved ".to_owned();
    report.append(decimal_of(n as u64).as_str());
    report.append(" new URL(s) to '");
    report.append(path);
    report.append("'.");
    AppendPlan::Append { text, report }
}

/// The text that is shown when the file cannot be opened.
pub fn open_error(path: &str, cause: &str) -> (r: String)
    ensures
        r@ == "Failed to open '"@ + path@ + "' for appending: "@ + cause@,
{
    concat_four("Failed to open '", path, "' for appending: ", cause)
}

/// The text that is shown when the file cannot be written.
pub fn write_error(path: &str, cause: &str) -> (r: String)
    ensures
        r@ == "Failed to write to '"@ + path@ + "': "@ + cause@,
{
    concat_four("Failed to write to '", path, "': ", cause)
}

} // verus!
