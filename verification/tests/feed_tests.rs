use newspenguin_bot::error::BotError;
use newspenguin_bot::feed::{
    compose_message, feed_request, feed_url, parse_feed, screen_item, select_candidates, Candidate,
    FeedItem,
};
use newspenguin_bot::http::HttpMethod;
use newspenguin_bot::instant::Instant;

const FEED: &str = r#"<?xml version="1.0" encoding="UTF-8"?>
<rss version="2.0"><channel><title>NewsPenguin</title><link>https://www.newspenguin.com</link><description>news</description>
<item><title>Newest</title><link>https://n/3</link><description>three</description><pubDate>2024-05-01 20:30:00</pubDate></item>
<item><title>Middle</title><link>https://n/2</link><description>two</description><pubDate>Wed, 01 May 2024 11:00:00 +0000</pubDate></item>
<item><title>Old</title><link>https://n/1</link><description>one</description><pubDate>2024-05-01 15:00:00</pubDate></item>
</channel></rss>"#;

fn item(title: Option<&str>, link: Option<&str>, description: Option<&str>, date: Option<&str>) -> FeedItem {
    FeedItem {
        title: title.map(|s| s.to_string()),
        link: link.map(|s| s.to_string()),
        description: description.map(|s| s.to_string()),
        pub_date: date.map(|s| s.to_string()),
    }
}

fn at(secs: i64) -> Instant {
    Instant { secs, nanos: 0 }
}

#[test]
fn parse_feed_reads_items_in_document_order() {
    let items = parse_feed(FEED.as_bytes()).unwrap();
    assert_eq!(items.len(), 3);
    assert_eq!(items[0].title.as_deref(), Some("Newest"));
    assert_eq!(items[0].link.as_deref(), Some("https://n/3"));
    assert_eq!(items[0].description.as_deref(), Some("three"));
    assert_eq!(items[0].pub_date.as_deref(), Some("2024-05-01 20:30:00"));
    assert_eq!(items[2].title.as_deref(), Some("Old"));
}

#[test]
fn parse_feed_rejects_what_is_not_rss() {
    assert!(matches!(parse_feed(b"<html></html>"), Err(BotError::FeedUnreadable)));
    assert!(matches!(parse_feed(b""), Err(BotError::FeedUnreadable)));
}

#[test]
fn feed_url_defaults_and_trims() {
    assert_eq!(feed_url(None), "https://www.newspenguin.com/rss/allArticle.xml");
    assert_eq!(feed_url(Some(" https://x/rss \n".to_string())), "https://x/rss");
}

#[test]
fn feed_request_sends_browser_headers() {
    let q = feed_request("https://x/rss", None);
    assert_eq!(q.method, HttpMethod::Get);
    assert_eq!(q.url, "https://x/rss");
    assert!(q.body.is_none());
    assert_eq!(q.headers.len(), 5);
    assert_eq!(q.headers[0].0, "User-Agent");
    assert_eq!(q.headers[0].1, "Mozilla/5.0 (Windows NT 10.0; Win64; x64; rv:125.0) Gecko/20100101 Firefox/125.0");
    assert_eq!(q.headers[2], ("Accept-Language".to_string(), "en-US,en;q=0.9".to_string()));
    let q = feed_request("u", Some("bot/1".to_string()));
    assert_eq!(q.headers[0].1, "bot/1");
}

#[test]
fn screening_keeps_fresh_linked_items() {
    let cutoff = at(1714557600);
    let fresh = item(Some("t"), Some("https://n/3"), None, Some("2024-05-01 20:30:00"));
    assert_eq!(screen_item(&fresh, &cutoff, &None), Some(at(1714563000)));
    let no_link = item(Some("t"), Some(""), None, Some("2024-05-01 20:30:00"));
    assert_eq!(screen_item(&no_link, &cutoff, &None), None);
    let missing_link = item(Some("t"), None, None, Some("2024-05-01 20:30:00"));
    assert_eq!(screen_item(&missing_link, &cutoff, &None), None);
    let old = item(Some("t"), Some("l"), None, Some("2024-05-01 15:00:00"));
    assert_eq!(screen_item(&old, &cutoff, &None), None);
    let undated = item(Some("t"), Some("l"), None, Some("soon"));
    assert_eq!(screen_item(&undated, &cutoff, &None), None);
    let no_date = item(Some("t"), Some("l"), None, None);
    assert_eq!(screen_item(&no_date, &cutoff, &None), None);
    let at_cutoff = item(Some("t"), Some("l"), None, Some("2024-05-01T10:00:00Z"));
    assert_eq!(screen_item(&at_cutoff, &cutoff, &None), Some(cutoff));
    assert_eq!(screen_item(&fresh, &cutoff, &Some(at(1714563000))), None);
    assert_eq!(screen_item(&fresh, &cutoff, &Some(at(1714562999))), Some(at(1714563000)));
}

#[test]
fn candidates_keep_order_and_texts() {
    let mut items = parse_feed(FEED.as_bytes()).unwrap();
    items.reverse();
    let cs = select_candidates(&items, &at(1714557600), &None);
    assert_eq!(cs.len(), 2);
    assert_eq!(cs[0].link, "https://n/2");
    assert_eq!(cs[0].published, at(1714561200));
    assert_eq!(cs[1].title, "Newest");
    assert_eq!(cs[1].description, "three");
    let cs = select_candidates(&items, &at(1714557600), &Some(at(1714561800)));
    assert_eq!(cs.len(), 1);
    assert_eq!(cs[0].link, "https://n/3");
}

#[test]
fn messages_have_four_lines() {
    let c = Candidate {
        link: "https://n/3".to_string(),
        title: "Newest".to_string(),
        description: "three".to_string(),
        published: at(1714563000),
    };
    assert_eq!(compose_message(&c).unwrap(), "Newest:\nthree\nhttps://n/3\n(Wed, 1 May 2024 11:30:00 +0000)");
    let long: String = std::iter::repeat('펭').take(400).collect();
    let c = Candidate { link: "l".to_string(), title: String::new(), description: long.clone(), published: at(0) };
    let expected = format!(":\n{}...\nl\n(Thu, 1 Jan 1970 00:00:00 +0000)", long.chars().take(300).collect::<String>());
    assert_eq!(compose_message(&c).unwrap(), expected);
    let far = Candidate { link: "l".to_string(), title: String::new(), description: String::new(), published: at(253402300800) };
    assert!(matches!(compose_message(&far), Err(BotError::DateNotWritable)));
}
