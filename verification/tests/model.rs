use chrono::DateTime;
use feedragon::model::{merge_feeds, Entry, Feed};
use feedragon::time::Timestamp;

fn at(text: &str) -> Timestamp {
    let instant = DateTime::parse_from_rfc3339(text).unwrap();
    Timestamp::new(instant.timestamp(), instant.timestamp_subsec_nanos())
}

fn entry(id: &str, updated: Timestamp) -> Entry {
    Entry {
        id: id.into(),
        link: format!("https://example.com/{}", id),
        title: format!("Title of {}", id),
        summary: format!("Summary of {}", id),
        updated,
    }
}

fn feed(title: &str, entries: Vec<Entry>) -> Feed {
    Feed {
        author_name: "Someone".into(),
        id: format!("{} ID", title),
        link: format!("https://example.com/{}/rss", title),
        title: title.into(),
        entries,
    }
}

fn ids(feed: &Feed) -> Vec<&str> {
    feed.entries.iter().map(|entry| entry.id.as_str()).collect()
}

#[test]
fn latest_entries_are_first() {
    let feed1 = Feed {
        author_name: "James".into(),
        id: "James ID".into(),
        link: "https://james.com/rss".into(),
        title: "James Feed".into(),
        entries: vec![
            Entry {
                id: "James Post 2".into(),
                link: "https://james.com/posts/2".into(),
                title: "More thoughs on posting".into(),
                summary: "Posting keeps being nice.".into(),
                updated: at("2022-01-01T00:00:00+00:00"),
            },
            Entry {
                id: "James Post 1".into(),
                link: "https://james.com/posts/1".into(),
                title: "Thinking about posting.".into(),
                summary: "Posting is really nice.".into(),
                updated: at("2020-01-01T00:00:00+00:00"),
            },
        ],
    };
    let feed2 = Feed {
        author_name: "Jessica".into(),
        id: "Jessica ID".into(),
        link: "https://jessica.com/rss".into(),
        title: "Jessica Feed".into(),
        entries: vec![
            Entry {
                id: "Jessica Post 2".into(),
                link: "https://jessica.com/posts/2".into(),
                title: "I made a post two years ago.".into(),
                summary: "Posting has not improved in two years.".into(),
                updated: at("2021-01-01T00:00:00+00:00"),
            },
            Entry {
                id: "Jessica Post 1".into(),
                link: "https://jessica.com/posts/1".into(),
                title: "Posting should improve.".into(),
                summary: "It can only get better!".into(),
                updated: at("2019-01-01T00:00:00+00:00"),
            },
        ],
    };

    let merged = merge_feeds(
        "Friends".into(),
        "https://friends.com/rss".into(),
        vec![feed1, feed2],
    );

    let post_ids: Vec<&str> = merged
        .entries
        .iter()
        .map(|entry| entry.id.as_str())
        .collect();
    assert_eq!(
        post_ids,
        vec![
            "James Post 2",
            "Jessica Post 2",
            "James Post 1",
            "Jessica Post 1"
        ]
    );

    assert_eq!(merged.title, "James Feed + Jessica Feed")
}

#[test]
fn merged_feed_carries_the_given_identity() {
    let merged = merge_feeds(
        "Friends".into(),
        "https://friends.com/rss".into(),
        vec![feed("One", vec![]), feed("Two", vec![])],
    );
    assert_eq!(merged.id, "Friends");
    assert_eq!(merged.link, "https://friends.com/rss");
    assert_eq!(merged.author_name, "Unknown");
    assert_eq!(merged.title, "One + Two");
    assert!(merged.entries.is_empty());
}

#[test]
fn merge_of_no_feeds_is_empty() {
    let merged = merge_feeds("Nothing".into(), "https://nothing.com/".into(), vec![]);
    assert_eq!(merged.title, "");
    assert_eq!(merged.author_name, "Unknown");
    assert!(merged.entries.is_empty());
}

#[test]
fn merge_of_one_feed_keeps_its_title() {
    let merged = merge_feeds(
        "Single".into(),
        "https://single.com/".into(),
        vec![feed("Only", vec![entry("a", Timestamp::new(5, 0))])],
    );
    assert_eq!(merged.title, "Only");
    assert_eq!(ids(&merged), vec!["a"]);
}

#[test]
fn entries_of_the_same_instant_keep_their_order() {
    let t = Timestamp::new(100, 0);
    let merged = merge_feeds(
        "Ties".into(),
        "https://ties.com/".into(),
        vec![
            feed("A", vec![entry("a1", t), entry("a2", t), entry("a0", Timestamp::new(50, 0))]),
            feed("B", vec![entry("b1", t), entry("b9", Timestamp::new(200, 0))]),
            feed("C", vec![entry("c1", t)]),
        ],
    );
    assert_eq!(ids(&merged), vec!["b9", "a1", "a2", "b1", "c1", "a0"]);
}

#[test]
fn nanoseconds_decide_within_one_second() {
    let merged = merge_feeds(
        "Fine".into(),
        "https://fine.com/".into(),
        vec![feed(
            "A",
            vec![
                entry("early", Timestamp::new(7, 1)),
                entry("late", Timestamp::new(7, 999_999_999)),
                entry("before", Timestamp::new(6, 999_999_999)),
                entry("negative", Timestamp::new(-1, 5)),
            ],
        )],
    );
    assert_eq!(ids(&merged), vec!["late", "early", "before", "negative"]);
}

#[test]
fn merge_keeps_every_entry() {
    let mut feeds = vec![];
    let mut expected = 0;
    for f in 0..5i64 {
        let mut entries = vec![];
        for e in 0..(f + 2) {
            entries.push(entry(&format!("{}-{}", f, e), Timestamp::new((e * 7 + f * 3) % 11, 0)));
            expected += 1;
        }
        feeds.push(feed(&format!("F{}", f), entries));
    }
    let merged = merge_feeds("All".into(), "https://all.com/".into(), feeds);
    assert_eq!(merged.entries.len(), expected);
    assert_eq!(merged.title, "F0 + F1 + F2 + F3 + F4");
    for pair in merged.entries.windows(2) {
        assert!(!pair[0].updated.is_before(&pair[1].updated));
    }
}

#[test]
fn timestamps_are_ordered_by_seconds_then_nanos() {
    assert!(Timestamp::new(1, 999).is_before(&Timestamp::new(2, 0)));
    assert!(Timestamp::new(2, 0).is_before(&Timestamp::new(2, 1)));
    assert!(!Timestamp::new(2, 1).is_before(&Timestamp::new(2, 1)));
    assert!(!Timestamp::new(3, 0).is_before(&Timestamp::new(2, 999_999_999)));
}
