use devzen_bots::topics::urls::{extract_urls, is_white_space};

#[test]
fn addresses_end_at_white_space_and_brackets() {
    let text = "see [a](http://a.io/x) and <http://b.io> or \"http://c.io\" or [http://d.io] http://e.io\u{a0}f";
    assert_eq!(
        extract_urls(text),
        vec!["http://a.io/x", "http://b.io", "http://c.io", "http://d.io", "http://e.io"]
    );
}

#[test]
fn secure_addresses_are_found() {
    assert_eq!(
        extract_urls("https://a.io/?q=1#x, then https://b.io/c\nhttps://d.io"),
        vec!["https://a.io/?q=1#x,", "https://b.io/c", "https://d.io"]
    );
}

#[test]
fn no_address_no_entry() {
    assert!(extract_urls("").is_empty());
    assert!(extract_urls("ftp://a.io http:/b https:c").is_empty());
}

#[test]
fn an_address_is_listed_once() {
    assert_eq!(
        extract_urls("http://a.io http://b.io http://a.io"),
        vec!["http://a.io", "http://b.io"]
    );
}

#[test]
fn the_search_goes_to_the_next_plain_scheme_first() {
    assert_eq!(
        extract_urls("https://first.io http://second.io https://third.io"),
        vec!["http://second.io", "https://third.io"]
    );
}

#[test]
fn addresses_come_as_they_are_found() {
    assert_eq!(extract_urls("https://a http://b https://a"), vec!["http://b", "https://a"]);
}

#[test]
fn a_bare_scheme_is_an_address() {
    assert_eq!(extract_urls("http:// https://"), vec!["http://", "https://"]);
}

#[test]
fn a_scheme_within_an_address_belongs_to_it() {
    assert_eq!(
        extract_urls("http://web.archive.org/http://a.io x"),
        vec!["http://web.archive.org/http://a.io"]
    );
}

#[test]
fn addresses_beside_other_scripts() {
    assert_eq!(
        extract_urls("тема: https://devzen.ru/темы\u{3000}дальше"),
        vec!["https://devzen.ru/темы"]
    );
}

#[test]
fn white_space_is_that_of_unicode() {
    for n in 0..=0x10FFFFu32 {
        if let Some(c) = char::from_u32(n) {
            assert_eq!(is_white_space(c), c.is_whitespace(), "{:x}", n);
        }
    }
}
