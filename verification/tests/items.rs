use devzen_bots::feed::entry::FeedEntry;
use devzen_bots::feed::items::{
    append_urls_plan, new_feed_items, new_items_of_channel, open_error, select_new_items,
    write_error, AppendPlan, FeedError, FeedItem,
};

fn entry(link: Option<&str>, title: Option<&str>, content: Option<&str>) -> FeedEntry {
    FeedEntry {
        link: link.map(str::to_owned),
        title: title.map(str::to_owned),
        content: content.map(str::to_owned),
    }
}

fn urls(items: &[FeedItem]) -> Vec<&str> {
    items.iter().map(|i| i.url.as_str()).collect()
}

const FEED: &str = "<?xml version=\"1.0\"?>\
<rss version=\"2.0\" xmlns:content=\"http://purl.org/rss/1.0/modules/content/\"><channel>\
<title>DevZen</title><link>https://devzen.ru</link><description>d</description>\
<item><title>Two</title><link>https://devzen.ru/2</link>\
<content:encoded><![CDATA[<p>x</p>\n<img src=\"https://devzen.ru/wp-content/uploads/2.jpg\">\n<p>y</p>]]></content:encoded></item>\
<item><title>No link</title></item>\
<item><link>https://devzen.ru/1</link></item>\
</channel></rss>";

#[test]
fn new_items_of_a_feed() {
    let items = new_feed_items(FEED.as_bytes(), "https://devzen.ru/0\n").unwrap();
    assert_eq!(urls(&items), vec!["https://devzen.ru/2", "https://devzen.ru/1"]);
    assert_eq!(items[0].title, "Two");
    assert_eq!(items[0].content, "<p>x</p>\n<p>y</p>");
    assert_eq!(items[1].title, "");
    assert_eq!(items[1].content, "");
}

#[test]
fn recorded_items_are_not_new() {
    let items = new_feed_items(FEED.as_bytes(), "https://devzen.ru/2\r\n").unwrap();
    assert_eq!(urls(&items), vec!["https://devzen.ru/1"]);
}

#[test]
fn a_feed_that_is_none() {
    let error = new_feed_items(b"<html></html>", "").unwrap_err();
    assert!(matches!(error, FeedError::Parse { .. }));
    assert_eq!(
        error.message(),
        "Failed to parse RSS feed: the input did not begin with an rss tag"
    );
    assert_eq!(
        new_feed_items(b"", "").unwrap_err().message(),
        "Failed to parse RSS feed: reached end of input without finding a complete channel"
    );
}

#[test]
fn what_is_made_of_a_parsed_channel() {
    let entries = vec![entry(Some("u"), Some("t"), None), entry(None, Some("x"), None)];
    let items = new_items_of_channel(Ok(entries), "").unwrap();
    assert_eq!(urls(&items), vec!["u"]);
    let error = new_items_of_channel(Err("bad".to_owned()), "").unwrap_err();
    assert_eq!(error.message(), "Failed to parse RSS feed: bad");
}

#[test]
fn entries_with_one_link_are_all_new() {
    let entries = vec![entry(Some("u"), Some("a"), None), entry(Some("u"), Some("b"), None)];
    assert_eq!(urls(&select_new_items(&entries, "v")), vec!["u", "u"]);
    assert!(select_new_items(&entries, "v\nu").is_empty());
}

#[test]
fn an_empty_link_is_a_link() {
    let entries = vec![entry(Some(""), None, None)];
    assert_eq!(urls(&select_new_items(&entries, "")), vec![""]);
    assert!(select_new_items(&entries, "\n").is_empty());
}

#[test]
fn episodes_are_announced_once() {
    let mut record = "https://devzen.ru/0\n".to_owned();
    let items = new_feed_items(FEED.as_bytes(), &record).unwrap();
    match append_urls_plan(&items, "processed.txt") {
        AppendPlan::Append { text, report } => {
            assert_eq!(text, "https://devzen.ru/2\nhttps://devzen.ru/1\n");
            assert_eq!(report, "Saved 2 new URL(s) to 'processed.txt'.");
            record.push_str(&text);
        }
        AppendPlan::Nothing { .. } => panic!("there are items to record"),
    }
    assert!(new_feed_items(FEED.as_bytes(), &record).unwrap().is_empty());
}

#[test]
fn a_link_that_ends_with_a_carriage_return_stays_new() {
    let entries = vec![entry(Some("u\r"), None, None)];
    assert_eq!(urls(&select_new_items(&entries, "u\r\n")), vec!["u\r"]);
}

#[test]
fn nothing_to_record() {
    match append_urls_plan(&Vec::new(), "processed.txt") {
        AppendPlan::Nothing { report } => assert_eq!(report, "No new URLs to save."),
        AppendPlan::Append { .. } => panic!("there is nothing to record"),
    }
}

#[test]
fn errors_of_the_feed() {
    let s = |t: &str| t.to_owned();
    assert_eq!(
        FeedError::InvalidProxy { url: s("p"), cause: s("c") }.message(),
        "Invalid proxy URL 'p': c"
    );
    assert_eq!(FeedError::Client { cause: s("c") }.message(), "Failed to build HTTP client: c");
    assert_eq!(
        FeedError::Request { url: s("u"), cause: s("c") }.message(),
        "Failed to fetch RSS feed 'u': c"
    );
    assert_eq!(FeedError::Body { cause: s("c") }.message(), "Failed to read RSS response body: c");
    assert_eq!(open_error("f", "c"), "Failed to open 'f' for appending: c");
    assert_eq!(write_error("f", "c"), "Failed to write to 'f': c");
}
