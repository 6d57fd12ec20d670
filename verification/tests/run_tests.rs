use newspenguin_bot::error::BotError;
use newspenguin_bot::instant::Instant;
use newspenguin_bot::run::{app_id_from_setting, dry_run_requested, Action, BotRun, Event};

const FEED: &str = r#"<?xml version="1.0" encoding="UTF-8"?>
<rss version="2.0"><channel><title>NewsPenguin</title><link>https://www.newspenguin.com</link><description>news</description>
<item><title>Newest</title><link>https://n/3</link><description>three</description><pubDate>2024-05-01 20:30:00</pubDate></item>
<item><title>Middle</title><link>https://n/2</link><description>two</description><pubDate>Wed, 01 May 2024 11:00:00 +0000</pubDate></item>
<item><title>Old</title><link>https://n/1</link><description>one</description><pubDate>2024-05-01 15:00:00</pubDate></item>
</channel></rss>"#;

const NOW: Instant = Instant { secs: 1714564800, nanos: 0 };

fn s(x: &str) -> String {
    x.to_string()
}

fn started(dry_run: bool) -> BotRun {
    let (run, action) = BotRun::start(dry_run, None, None);
    match action {
        Action::Fetch(q) => assert_eq!(q.url, "https://www.newspenguin.com/rss/allArticle.xml"),
        _ => panic!("expected a fetch"),
    }
    run
}

fn key_of(a: &Action) -> String {
    match a {
        Action::ReadSavedDate { key } | Action::ReadPostedLinks { key } | Action::DeleteKey { key } => key.clone(),
        Action::RecordLink { key, .. } | Action::SaveRunDate { key, .. } => key.clone(),
        _ => panic!("no key in {:?}", std::mem::discriminant(a)),
    }
}

#[test]
fn full_run_posts_records_saves_and_cleans() {
    let mut run = started(false);
    let a = run.step_at(Event::Fetched(Ok(FEED.as_bytes().to_vec())), NOW);
    assert!(matches!(a, Action::ReadSavedDate { .. }));
    assert_eq!(key_of(&a), "newspenguin-rss.last_build_date");
    let a = run.step_at(Event::SavedDate(Ok(Some(s("2024-05-01 11:10:00")))), NOW);
    assert!(matches!(a, Action::ReadPostedLinks { .. }));
    assert_eq!(key_of(&a), "posted link");
    let a = run.step_at(Event::PostedLinks(Ok(vec![s("https://n/2")])), NOW);
    match a {
        Action::Post { ref message } => assert_eq!(message, "Newest:\nthree\nhttps://n/3\n(Wed, 1 May 2024 11:30:00 +0000)"),
        _ => panic!("expected a post"),
    }
    let a = run.step_at(Event::Posted(Ok(())), NOW);
    match a {
        Action::RecordLink { ref key, ref value } => {
            assert_eq!(key, "posted link");
            assert_eq!(value, "https://n/3");
        }
        _ => panic!("expected a record"),
    }
    let a = run.step_at(Event::Recorded(Err(BotError::Transport(s("down")))), NOW);
    match a {
        Action::SaveRunDate { ref key, ref value } => {
            assert_eq!(key, "newspenguin-rss.last_build_date");
            assert_eq!(value, "2024-05-01 12:00:00");
        }
        _ => panic!("expected the run date"),
    }
    let a = run.step_at(Event::RunDateSaved(Ok(())), NOW);
    assert!(matches!(a, Action::ListStore));
    let entries = vec![
        (s("link:a"), s("2024-04-20T00:00:00+00:00")),
        (s("link:b"), s("2024-04-30T00:00:00+00:00")),
        (s("other"), s("2024-01-01T00:00:00+00:00")),
        (s("link:c"), s("garbage")),
    ];
    let a = run.step_at(Event::Listed(Ok(entries)), NOW);
    assert_eq!(key_of(&a), "link:a");
    let a = run.step_at(Event::Deleted(Err(BotError::Transport(s("x")))), NOW);
    assert!(matches!(a, Action::Finish(Ok(()))));
    assert!(run.is_finished());
}

#[test]
fn recorded_links_are_skipped() {
    let mut run = started(false);
    run.step_at(Event::Fetched(Ok(FEED.as_bytes().to_vec())), NOW);
    let a = run.step_at(Event::SavedDate(Ok(None)), NOW);
    assert_eq!(key_of(&a), "posted link");
    let a = run.step_at(Event::PostedLinks(Ok(vec![s("https://n/1"), s("https://n/2")])), NOW);
    assert_eq!(key_of(&a), "posted link");
    let a = run.step_at(Event::PostedLinks(Err(BotError::Transport(s("x")))), NOW);
    match a {
        Action::Post { ref message } => assert!(message.starts_with("Newest:")),
        _ => panic!("expected a post"),
    }
}

#[test]
fn dry_run_posts_but_writes_nothing() {
    let mut run = started(true);
    assert!(run.is_dry_run());
    run.step_at(Event::Fetched(Ok(FEED.as_bytes().to_vec())), NOW);
    let a = run.step_at(Event::SavedDate(Err(BotError::Transport(s("x")))), NOW);
    assert_eq!(key_of(&a), "posted link");
    let a = run.step_at(Event::PostedLinks(Ok(vec![])), NOW);
    assert!(matches!(a, Action::Post { .. }));
    let a = run.step_at(Event::Posted(Ok(())), NOW);
    assert_eq!(key_of(&a), "posted link");
    run.step_at(Event::PostedLinks(Ok(vec![])), NOW);
    let a = run.step_at(Event::Posted(Ok(())), NOW);
    assert!(matches!(a, Action::Finish(Ok(()))));
}

#[test]
fn a_failed_post_ends_the_run() {
    let mut run = started(false);
    run.step_at(Event::Fetched(Ok(FEED.as_bytes().to_vec())), NOW);
    run.step_at(Event::SavedDate(Ok(None)), NOW);
    run.step_at(Event::PostedLinks(Ok(vec![])), NOW);
    let a = run.step_at(Event::Posted(Err(BotError::Transport(s("503")))), NOW);
    assert!(matches!(a, Action::Finish(Err(BotError::Transport(ref e))) if e == "503"));
}

#[test]
fn a_failed_fetch_or_bad_feed_ends_the_run() {
    let mut run = started(false);
    let a = run.step(Event::Fetched(Err(BotError::Transport(s("dns")))));
    assert!(matches!(a, Action::Finish(Err(BotError::Transport(_)))));
    let mut run = started(false);
    let a = run.step_at(Event::Fetched(Ok(b"<html/>".to_vec())), NOW);
    assert!(matches!(a, Action::Finish(Err(BotError::FeedUnreadable))));
}

#[test]
fn nothing_fresh_goes_straight_to_saving_the_run_date() {
    let mut run = started(false);
    run.step_at(Event::Fetched(Ok(FEED.as_bytes().to_vec())), NOW);
    let a = run.step_at(Event::SavedDate(Ok(Some(s("2024-05-01T12:00:00Z")))), NOW);
    assert_eq!(key_of(&a), "newspenguin-rss.last_build_date");
    let a = run.step_at(Event::RunDateSaved(Err(BotError::Storage(s("ro")))), NOW);
    assert!(matches!(a, Action::Finish(Err(BotError::Storage(_)))));
}

#[test]
fn a_failed_listing_still_ends_well() {
    let mut run = started(false);
    run.step_at(Event::Fetched(Ok(FEED.as_bytes().to_vec())), NOW);
    run.step_at(Event::SavedDate(Ok(Some(s("2024-05-01T12:00:00Z")))), NOW);
    run.step_at(Event::RunDateSaved(Ok(())), NOW);
    let a = run.step_at(Event::Listed(Err(BotError::Transport(s("x")))), NOW);
    assert!(matches!(a, Action::Finish(Ok(()))));
}

#[test]
fn app_id_and_dry_run_flag() {
    assert_eq!(app_id_from_setting(None), 0);
    assert_eq!(app_id_from_setting(Some(s("17"))), 17);
    assert_eq!(app_id_from_setting(Some(s("x"))), 0);
    assert!(dry_run_requested(&vec![s("bot"), s("--dryrun")]));
    assert!(!dry_run_requested(&vec![s("bot"), s("--dry-run")]));
    assert!(!dry_run_requested(&vec![]));
}

#[test]
fn a_link_posted_in_a_run_is_not_posted_by_the_next_run() {
    let mut store = newspenguin_bot::kv::KvStore::new();
    let mut run = started(false);
    run.step_at(Event::Fetched(Ok(FEED.as_bytes().to_vec())), NOW);
    let mut a = run.step_at(Event::SavedDate(Ok(None)), NOW);
    let mut posts = 0;
    loop {
        a = match a {
            Action::ReadPostedLinks { key } => run.step_at(Event::PostedLinks(Ok(store.values(&key))), NOW),
            Action::Post { .. } => {
                posts += 1;
                run.step_at(Event::Posted(Ok(())), NOW)
            }
            Action::RecordLink { key, value } => {
                store.set(key, value);
                run.step_at(Event::Recorded(Ok(())), NOW)
            }
            _ => break,
        };
    }
    assert_eq!(posts, 2);
    assert_eq!(store.values("posted link"), vec![s("https://n/2"), s("https://n/3")]);
    let mut again = started(false);
    again.step_at(Event::Fetched(Ok(FEED.as_bytes().to_vec())), NOW);
    let mut a = again.step_at(Event::SavedDate(Ok(None)), NOW);
    while let Action::ReadPostedLinks { key } = a {
        a = again.step_at(Event::PostedLinks(Ok(store.values(&key))), NOW);
    }
    assert!(matches!(a, Action::SaveRunDate { .. }));
}
