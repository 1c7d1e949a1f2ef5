use devzen_bots::feed::items::FeedItem;
use devzen_bots::feed::poll::{interval_seconds, PollAction, PollEvent, PollState, PollStep};
use devzen_bots::message::Report;

fn items(n: usize) -> Vec<FeedItem> {
    (0..n)
        .map(|i| FeedItem {
            url: format!("u{i}"),
            title: format!("t{i}"),
            content: format!("c{i}"),
        })
        .collect()
}

fn texts(step: &PollStep) -> Vec<String> {
    step.reports
        .iter()
        .map(|r| match r {
            Report::Note(t) => format!("note: {t}"),
            Report::Error(t) => format!("error: {t}"),
        })
        .collect()
}

fn announcements(n: usize, m: usize) -> (Vec<(usize, usize)>, bool) {
    let list = items(n);
    let mut pairs = Vec::new();
    let mut step =
        PollStep::next(PollState::Fetching, PollEvent::Fetched { error: None }, &list, m, 5);
    while let PollAction::Announce { item, recipient } = step.action {
        pairs.push((item, recipient));
        step = PollStep::next(step.state, PollEvent::Announced, &list, m, 5);
    }
    (pairs, matches!(step.action, PollAction::Save))
}

#[test]
fn all_is_sent_before_it_is_recorded() {
    assert_eq!(
        announcements(2, 3),
        (vec![(0, 0), (0, 1), (0, 2), (1, 0), (1, 1), (1, 2)], true)
    );
    assert_eq!(announcements(2, 0), (vec![], true));
    assert_eq!(announcements(0, 2), (vec![], false));
}

#[test]
fn the_first_round() {
    let step = PollStep::first(5);
    assert!(matches!(step.action, PollAction::Sync));
    assert_eq!(texts(&step), vec!["note: Polling every 5 minute(s). Press Ctrl+C to stop."]);
    let step = PollStep::next(step.state, PollEvent::Synced { error: None }, &items(0), 1, 5);
    assert!(matches!(step.action, PollAction::Fetch));
    assert!(step.reports.is_empty());
}

#[test]
fn a_failed_sync_ends_the_round() {
    let event = PollEvent::Synced { error: Some("e".to_owned()) };
    let step = PollStep::next(PollState::Syncing, event, &items(0), 1, 5);
    assert!(matches!(step.action, PollAction::Sleep));
    assert_eq!(texts(&step), vec!["error: Sync failed: e", "note: Sleeping for 5 minute(s)..."]);
}

#[test]
fn a_failed_fetch_finds_nothing() {
    let event = PollEvent::Fetched { error: Some("e".to_owned()) };
    let step = PollStep::next(PollState::Fetching, event, &items(0), 1, 5);
    assert!(matches!(step.action, PollAction::Sleep));
    assert_eq!(
        texts(&step),
        vec![
            "error: e",
            "note: Found 0 new episode(s) in the feed.",
            "note: Sleeping for 5 minute(s)...",
        ]
    );
}

#[test]
fn items_are_shown_in_their_turn() {
    let list = items(2);
    let step =
        PollStep::next(PollState::Fetching, PollEvent::Fetched { error: None }, &list, 1, 5);
    assert_eq!(
        texts(&step),
        vec!["note: Found 2 new episode(s) in the feed.", "note: t0 u0\n\nc0"]
    );
    let step = PollStep::next(step.state, PollEvent::Announced, &list, 1, 5);
    assert_eq!(texts(&step), vec!["note: t1 u1\n\nc1"]);
    let step =
        PollStep::next(PollState::Fetching, PollEvent::Fetched { error: None }, &list, 0, 5);
    assert_eq!(
        texts(&step),
        vec![
            "note: Found 2 new episode(s) in the feed.",
            "note: t0 u0\n\nc0",
            "note: t1 u1\n\nc1",
        ]
    );
}

#[test]
fn the_end_of_a_round() {
    let event = PollEvent::Saved { error: Some("e".to_owned()) };
    let step = PollStep::next(PollState::Saving, event, &items(1), 1, 1);
    assert_eq!(texts(&step), vec!["error: e", "note: Sleeping for 1 minute(s)..."]);
    assert!(matches!(step.action, PollAction::Sleep));
    let step = PollStep::next(step.state, PollEvent::Woken, &items(1), 1, 1);
    assert!(matches!(step.action, PollAction::Sync));
    assert!(matches!(step.state, PollState::Syncing));
}

#[test]
fn minutes_in_seconds() {
    assert_eq!(interval_seconds(0), 0);
    assert_eq!(interval_seconds(15), 900);
}
