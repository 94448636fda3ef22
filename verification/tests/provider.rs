use feedragon::caching_http_client::CachingHttpClient;
use feedragon::config::{caching_feed_provider, Config};
use feedragon::error::{ErrorKind, FeedError};
use feedragon::category::{try_all, Category};
use feedragon::feed_provider::{
    category_feed, category_feed_with_warnings, discard_err_feeds, fetched_bytes, parsed_feed,
    FeedProvider,
};
use feedragon::http_client::HttpClient;
use feedragon::links::{checked_url, validated_url};
use feedragon::model::{Entry, Feed};
use feedragon::serialization::FeedDeserializer;
use feedragon::time::{TimeSpan, Timestamp};
use std::collections::HashMap;

/// Answers from a table; counts the requests it gets.
struct TableClient {
    pages: HashMap<String, Result<Vec<u8>, FeedError>>,
    requests: Vec<String>,
}

impl TableClient {
    fn new(pages: Vec<(&str, Result<&str, &str>)>) -> TableClient {
        TableClient {
            pages: pages
                .into_iter()
                .map(|(url, page)| {
                    (
                        url.to_string(),
                        match page {
                            Ok(text) => Ok(text.as_bytes().to_vec()),
                            Err(cause) => Err(FeedError::new(ErrorKind::Network, cause.to_string())),
                        },
                    )
                })
                .collect(),
            requests: vec![],
        }
    }
}

impl HttpClient for TableClient {
    fn get_bytes(&mut self, url: &str) -> Result<Vec<u8>, FeedError> {
        self.requests.push(url.to_string());
        match self.pages.get(url) {
            Some(page) => page.clone(),
            None => Err(FeedError::new(
                ErrorKind::Network,
                format!("Could not download {}", url),
            )),
        }
    }
}

/// Reads a feed written as lines: the title first, then `seconds id` for
/// each entry.
struct LineDeserializer;

impl FeedDeserializer for LineDeserializer {
    fn parse_feed_from_bytes(&self, bytes: &[u8]) -> Result<Feed, FeedError> {
        let text = String::from_utf8(bytes.to_vec())
            .map_err(|_| FeedError::new(ErrorKind::Malformed, "not text".to_string()))?;
        let mut lines = text.lines();
        let title = lines
            .next()
            .ok_or_else(|| FeedError::new(ErrorKind::Malformed, "no title".to_string()))?;
        let mut entries = vec![];
        for line in lines {
            let (seconds, id) = line
                .split_once(' ')
                .ok_or_else(|| FeedError::new(ErrorKind::Malformed, "no id".to_string()))?;
            let seconds: i64 = seconds
                .parse()
                .map_err(|_| FeedError::new(ErrorKind::Malformed, "no instant".to_string()))?;
            entries.push(Entry {
                title: id.to_string(),
                link: id.to_string(),
                id: id.to_string(),
                updated: Timestamp::new(seconds, 0),
                summary: String::new(),
            });
        }
        Ok(Feed {
            title: title.to_string(),
            link: "https://source.com/".to_string(),
            author_name: "Source".to_string(),
            id: title.to_string(),
            entries,
        })
    }
}

fn categories(list: Vec<(&str, Vec<&str>)>) -> Vec<(String, Vec<String>)> {
    list.into_iter()
        .map(|(name, urls)| {
            (
                name.to_string(),
                urls.into_iter().map(|url| url.to_string()).collect(),
            )
        })
        .collect()
}

fn provider(
    list: Vec<(&str, Vec<&str>)>,
    pages: Vec<(&str, Result<&str, &str>)>,
) -> FeedProvider<TableClient, LineDeserializer> {
    FeedProvider::from_categories_and_http_client_and_feed_deserializer(
        categories(list),
        TableClient::new(pages),
        LineDeserializer,
    )
    .unwrap()
}

fn titles(feed: &Feed) -> Vec<&str> {
    feed.entries.iter().map(|entry| entry.title.as_str()).collect()
}

fn feed(title: &str, entries: Vec<(&str, i64)>) -> Feed {
    Feed {
        title: title.to_string(),
        link: format!("https://{}.com/", title),
        author_name: "Someone".to_string(),
        id: title.to_string(),
        entries: entries
            .into_iter()
            .map(|(id, seconds)| Entry {
                title: id.to_string(),
                link: id.to_string(),
                id: id.to_string(),
                updated: Timestamp::new(seconds, 0),
                summary: String::new(),
            })
            .collect(),
    }
}

#[test]
fn entries_of_two_sources_are_merged_newest_first() {
    let mut provider = provider(
        vec![("comedy", vec!["https://one.com/rss", "https://two.com/rss"])],
        vec![
            ("https://one.com/rss", Ok("Title1\n100 Post A")),
            ("https://two.com/rss", Ok("Title2\n200 Post B")),
        ],
    );
    let merged = provider.feed_by_category("comedy").unwrap();
    assert_eq!(titles(&merged), vec!["Post B", "Post A"]);
    assert_eq!(merged.title, "Title1 + Title2");
    assert_eq!(merged.id, "comedy");
    assert_eq!(
        merged.link,
        "https://feedragon.privacy.qvarford.net/feeds/comedy/atom.xml"
    );
    assert_eq!(merged.author_name, "Unknown");
}

#[test]
fn source_that_cannot_be_fetched_is_left_out() {
    let mut provider = provider(
        vec![(
            "comedy",
            vec!["https://one.com/rss", "https://two.com/rss", "https://three.com/rss"],
        )],
        vec![
            ("https://one.com/rss", Ok("Title1\n100 Post A")),
            ("https://two.com/rss", Ok("Title2\n200 Post B")),
            ("https://three.com/rss", Err("connection refused")),
        ],
    );
    let merged = provider.feed_by_category("comedy").unwrap();
    assert_eq!(titles(&merged), vec!["Post B", "Post A"]);
    assert_eq!(merged.title, "Title1 + Title2");
}

#[test]
fn source_that_cannot_be_read_is_left_out() {
    let mut provider = provider(
        vec![("news", vec!["https://one.com/rss", "https://two.com/rss"])],
        vec![
            ("https://one.com/rss", Ok("Title1\nnot-a-number Post A")),
            ("https://two.com/rss", Ok("Title2\n200 Post B\n300 Post C")),
        ],
    );
    let merged = provider.feed_by_category("news").unwrap();
    assert_eq!(titles(&merged), vec!["Post C", "Post B"]);
    assert_eq!(merged.title, "Title2");
}

#[test]
fn category_whose_sources_all_fail_is_an_empty_feed() {
    let mut provider = provider(
        vec![("comedy", vec!["https://one.com/rss", "https://two.com/rss"])],
        vec![],
    );
    let merged = provider.feed_by_category("comedy").unwrap();
    assert!(merged.entries.is_empty());
    assert_eq!(merged.title, "");
    assert_eq!(merged.id, "comedy");
}

#[test]
fn category_without_sources_is_an_empty_feed() {
    let mut provider = provider(vec![("empty", vec![])], vec![]);
    let merged = provider.feed_by_category("empty").unwrap();
    assert!(merged.entries.is_empty());
    assert_eq!(merged.title, "");
}

#[test]
fn unknown_category_is_not_found() {
    let mut provider = provider(
        vec![("comedy", vec!["https://one.com/rss"])],
        vec![("https://one.com/rss", Ok("Title1\n100 Post A"))],
    );
    let error = provider.feed_by_category("drama").unwrap_err();
    assert_eq!(error.kind, ErrorKind::NotFound);
    assert_eq!(error.message, "Failed to find feed category drama");
    assert_eq!(
        provider.sources_of("drama").unwrap_err().kind,
        ErrorKind::NotFound
    );
    assert_eq!(
        provider.sources_of("comedy").unwrap(),
        vec!["https://one.com/rss".to_string()]
    );
}

#[test]
fn same_category_twice_gives_the_same_feed() {
    let config = Config {
        categories: categories(vec![(
            "comedy",
            vec!["https://one.com/rss", "https://two.com/rss"],
        )]),
    };
    let client = TableClient::new(vec![
        ("https://one.com/rss", Ok("Title1\n100 Post A\n50 Post Z")),
        ("https://two.com/rss", Ok("Title2\n100 Post B")),
    ]);
    let mut provider = caching_feed_provider(config, client, LineDeserializer).unwrap();
    let first = provider.feed_by_category("comedy").unwrap();
    let second = provider.feed_by_category("comedy").unwrap();
    assert_eq!(titles(&first), vec!["Post A", "Post B", "Post Z"]);
    assert_eq!(first, second);
}

#[test]
fn link_of_a_category_is_written_as_a_url() {
    let mut provider = provider(vec![("late night", vec![])], vec![]);
    let merged = provider.feed_by_category("late night").unwrap();
    assert_eq!(merged.id, "late night");
    assert_eq!(
        merged.link,
        "https://feedragon.privacy.qvarford.net/feeds/late%20night/atom.xml"
    );
}

#[test]
fn sources_are_written_in_full() {
    let provider = provider(
        vec![("comedy", vec!["https://one.com", "HTTPS://Two.COM/a b"])],
        vec![],
    );
    assert_eq!(
        provider.sources_of("comedy").unwrap(),
        vec!["https://one.com/".to_string(), "https://two.com/a%20b".to_string()]
    );
}

#[test]
fn later_category_of_the_same_name_counts() {
    let provider = provider(
        vec![
            ("comedy", vec!["https://one.com/"]),
            ("comedy", vec!["https://two.com/"]),
        ],
        vec![],
    );
    assert_eq!(
        provider.sources_of("comedy").unwrap(),
        vec!["https://two.com/".to_string()]
    );
}

#[test]
fn source_that_is_no_url_fails_the_construction() {
    let result = FeedProvider::from_categories_and_http_client_and_feed_deserializer(
        categories(vec![
            ("fine", vec!["https://one.com/rss"]),
            ("comedy", vec!["https://two.com/rss", "not a url", "also none"]),
            ("drama", vec!["neither"]),
        ]),
        TableClient::new(vec![]),
        LineDeserializer,
    );
    let error = match result {
        Ok(_) => panic!("a source that is no URL was accepted"),
        Err(error) => error,
    };
    assert_eq!(error.kind, ErrorKind::InvalidConfig);
    assert_eq!(
        error.message,
        "Failed to parse categories due to url conversion issues.: \
         Failed to parse url in category comedy: \
         Failed to parse url not a url in category: relative URL without a base"
    );
}

#[test]
fn category_names_its_first_source_that_is_no_url() {
    let error = match Category::new(
        "comedy",
        vec!["https://one.com".to_string(), "http://".to_string(), "x".to_string()],
    ) {
        Ok(_) => panic!("a source that is no URL was accepted"),
        Err(error) => error,
    };
    assert_eq!(error.kind, ErrorKind::InvalidConfig);
    assert_eq!(
        error.message,
        "Failed to parse url in category comedy: Failed to parse url http:// in category: empty host"
    );
    assert!(Category::new("comedy", vec![]).is_ok());
}

#[test]
fn url_is_validated_from_what_parsing_gave() {
    assert_eq!(
        validated_url("x", Ok("https://x.com/".to_string())),
        Ok("https://x.com/".to_string())
    );
    assert_eq!(
        validated_url("x", Err("relative URL without a base".to_string())),
        Err(FeedError::new(
            ErrorKind::InvalidConfig,
            "Failed to parse url x in category: relative URL without a base".to_string()
        ))
    );
    assert_eq!(
        checked_url("https://example.net"),
        Ok("https://example.net/".to_string())
    );
    assert_eq!(checked_url("example").unwrap_err().kind, ErrorKind::InvalidConfig);
}

#[test]
fn try_all_gives_all_values_or_the_first_failure() {
    let all: Vec<Result<u32, String>> = vec![Ok(1), Ok(2), Ok(3)];
    assert_eq!(try_all(all), Ok(vec![1, 2, 3]));
    let some: Vec<Result<u32, String>> =
        vec![Ok(1), Err("a".to_string()), Ok(3), Err("b".to_string())];
    assert_eq!(try_all(some), Err("a".to_string()));
    let none: Vec<Result<u32, String>> = vec![];
    assert_eq!(try_all(none), Ok(vec![]));
}

#[test]
fn failures_are_dropped_with_a_warning_each() {
    let results = vec![
        Err(FeedError::new(ErrorKind::Network, "first is down".to_string())),
        Ok(feed("A", vec![("a", 1)])),
        Err(FeedError::new(ErrorKind::Malformed, "third is broken".to_string())),
        Ok(feed("B", vec![("b", 2)])),
    ];
    let left = discard_err_feeds(results, "comedy");
    assert_eq!(left.feeds, vec![feed("A", vec![("a", 1)]), feed("B", vec![("b", 2)])]);
    assert_eq!(
        left.warnings,
        vec![
            "Failed to fetch feed as part of category comedy. It will not be part of the next category feed.\nfirst is down".to_string(),
            "Failed to fetch feed as part of category comedy. It will not be part of the next category feed.\nthird is broken".to_string(),
        ]
    );
}

#[test]
fn warning_names_the_category_and_the_source() {
    let fetched = fetched_bytes(
        "https://three.com/rss",
        Err(FeedError::new(ErrorKind::Network, "connection refused".to_string())),
    );
    let failure = fetched.unwrap_err();
    assert_eq!(failure.kind, ErrorKind::Network);
    assert_eq!(
        failure.message,
        "Failed downloading feed https://three.com/rss as part of category: connection refused"
    );
    let left = discard_err_feeds(vec![Err(failure)], "comedy");
    assert!(left.feeds.is_empty());
    assert_eq!(left.warnings.len(), 1);
    assert!(left.warnings[0].contains("comedy"));
    assert!(left.warnings[0].contains("https://three.com/rss"));
}

#[test]
fn fetched_bytes_are_handed_on() {
    assert_eq!(fetched_bytes("https://a.com/", Ok(vec![1, 2, 3])), Ok(vec![1, 2, 3]));
}

#[test]
fn parsed_feed_tells_the_failure_of_its_source() {
    let failure = parsed_feed(
        "https://a.com/rss",
        Err(FeedError::new(ErrorKind::Malformed, "no title".to_string())),
    )
    .unwrap_err();
    assert_eq!(failure.kind, ErrorKind::Malformed);
    assert_eq!(
        failure.message,
        "Failed to parse feed https://a.com/rss as part of category: no title"
    );
    let kept = parsed_feed(
        "https://a.com/rss",
        Ok(feed("A", vec![("https://www.reddit.com/r/a/", 1)])),
    );
    assert_eq!(kept, Ok(feed("A", vec![("https://www.reddit.com/r/a/", 1)])));
}

#[test]
fn category_feed_merges_what_is_left() {
    let merged = category_feed(
        "comedy",
        vec![
            Ok(feed("A", vec![("a2", 20), ("a1", 10)])),
            Err(FeedError::new(ErrorKind::Network, "down".to_string())),
            Ok(feed("B", vec![("b2", 20), ("b1", 15)])),
        ],
    );
    assert_eq!(titles(&merged), vec!["a2", "b2", "b1", "a1"]);
    assert_eq!(merged.title, "A + B");
    assert_eq!(merged.id, "comedy");
    let nothing = category_feed(
        "comedy",
        vec![Err(FeedError::new(ErrorKind::Network, "down".to_string()))],
    );
    assert!(nothing.entries.is_empty());
    assert_eq!(nothing.title, "");
}

#[test]
fn caching_client_fetches_a_fresh_url_once() {
    let mut client = CachingHttpClient::new(
        TableClient::new(vec![("https://one.com/rss", Ok("Title1"))]),
        TimeSpan::hours(1),
        vec![],
    );
    assert_eq!(client.get_bytes("https://one.com/rss"), Ok(b"Title1".to_vec()));
    assert_eq!(client.get_bytes("https://one.com/rss"), Ok(b"Title1".to_vec()));
    let failure = client.get_bytes("https://two.com/rss").unwrap_err();
    assert_eq!(failure.kind, ErrorKind::Network);
    assert_eq!(
        failure.message,
        "Failed get cache http request https://two.com/rss, or compute it: Could not download https://two.com/rss"
    );
}

#[test]
fn caching_client_settles_a_fetch_at_a_given_instant() {
    let mut client = CachingHttpClient::new(TableClient::new(vec![]), TimeSpan::new(10, 0), vec![]);
    let now = Timestamp::new(1000, 0);
    assert_eq!(client.fresh_bytes("https://one.com/", &now), None);
    assert_eq!(
        client.settle_fetch("https://one.com/", &now, Ok(vec![7, 8])),
        Ok(vec![7, 8])
    );
    assert_eq!(
        client.fresh_bytes("https://one.com/", &Timestamp::new(1009, 999_999_999)),
        Some(vec![7, 8])
    );
    assert_eq!(client.fresh_bytes("https://one.com/", &Timestamp::new(1010, 0)), None);
    let stale = client.settle_fetch(
        "https://one.com/",
        &Timestamp::new(1011, 0),
        Err(FeedError::new(ErrorKind::Network, "down".to_string())),
    );
    assert_eq!(stale, Ok(vec![7, 8]));
    let cold = client.settle_fetch(
        "https://two.com/",
        &Timestamp::new(1011, 0),
        Err(FeedError::new(ErrorKind::Network, "down".to_string())),
    );
    assert_eq!(
        cold,
        Err(FeedError::new(
            ErrorKind::Network,
            "Failed get cache http request https://two.com/, or compute it: down".to_string()
        ))
    );
}

#[test]
fn config_lists_every_source() {
    let config = Config {
        categories: categories(vec![
            ("a", vec!["https://one.com/", "https://two.com/"]),
            ("b", vec![]),
            ("c", vec!["https://one.com/"]),
        ]),
    };
    assert_eq!(
        config.feed_urls(),
        vec![
            "https://one.com/".to_string(),
            "https://two.com/".to_string(),
            "https://one.com/".to_string()
        ]
    );
}

#[test]
fn error_context_is_put_in_front() {
    let error = FeedError::new(ErrorKind::Network, "down".to_string()).context("While fetching");
    assert_eq!(error.kind, ErrorKind::Network);
    assert_eq!(error.message, "While fetching: down");
}

#[test]
fn failed_source_is_warned_of_and_left_out() {
    let mut provider = provider(
        vec![(
            "comedy",
            vec!["https://one.com/rss", "https://two.com/rss", "https://three.com/rss"],
        )],
        vec![
            ("https://one.com/rss", Ok("Title1\n100 Post A")),
            ("https://two.com/rss", Ok("Title2\n200 Post B")),
            ("https://three.com/rss", Err("connection refused")),
        ],
    );
    let merged = provider.feed_by_category_with_warnings("comedy").unwrap();
    assert_eq!(titles(&merged.feed), vec!["Post B", "Post A"]);
    assert_eq!(
        merged.warnings,
        vec![
            "Failed to fetch feed as part of category comedy. It will not be part of the next category feed.\n\
             Failed downloading feed https://three.com/rss as part of category: connection refused"
                .to_string()
        ]
    );
    assert_eq!(
        provider
            .feed_by_category_with_warnings("drama")
            .map(|merged| merged.warnings)
            .unwrap_err()
            .kind,
        ErrorKind::NotFound
    );
}

#[test]
fn category_feed_warns_of_each_failure() {
    let merged = category_feed_with_warnings(
        "news",
        vec![
            Err(FeedError::new(ErrorKind::Network, "a".to_string())),
            Ok(feed("A", vec![("a1", 10)])),
            Err(FeedError::new(ErrorKind::Malformed, "b".to_string())),
        ],
    );
    assert_eq!(titles(&merged.feed), vec!["a1"]);
    assert_eq!(merged.warnings.len(), 2);
    assert!(merged.warnings[1].ends_with("\nb"));
}

#[test]
fn images_are_looked_up_through_the_provider() {
    let mut provider = provider(
        vec![("comedy", vec![])],
        vec![(
            "https://nitter.net/a/status/1",
            Ok("<meta property=\"og:image\" content=\"https://nitter.net/pic/1.jpg?name=small\">"),
        )],
    );
    let images = provider.extract_images_from_feed(feed(
        "A",
        vec![("https://nitter.net/a/status/1", 5), ("https://nitter.net/a/status/2", 6)],
    ));
    assert_eq!(images.title, "A");
    let ids: Vec<&str> = images.entries.iter().map(|e| e.id.as_str()).collect();
    assert_eq!(ids, vec!["https://nitter.net/pic/1.jpg"]);
    assert_eq!(images.entries[0].title, "https://nitter.net/a/status/1");
    assert_eq!(images.entries[0].updated, Timestamp::new(5, 0));
}

#[test]
fn feeds_are_handed_on_as_they_were_read() {
    let mut provider = provider(
        vec![("links", vec!["https://one.com/rss"])],
        vec![(
            "https://one.com/rss",
            Ok("Title1\n100 https://www.reddit.com/r/a/comments/b/"),
        )],
    );
    let merged = provider.feed_by_category("links").unwrap();
    let ids: Vec<&str> = merged.entries.iter().map(|e| e.id.as_str()).collect();
    assert_eq!(ids, vec!["https://www.reddit.com/r/a/comments/b/"]);
}

#[test]
fn caching_client_warns_of_old_bytes() {
    let mut client = CachingHttpClient::new(TableClient::new(vec![]), TimeSpan::new(10, 0), vec![]);
    let down = || Err(FeedError::new(ErrorKind::Network, "down".to_string()));
    assert!(client.settle_fetch("https://one.com/", &Timestamp::new(0, 0), down()).is_err());
    assert!(client.take_warnings().is_empty());
    let _ = client.settle_fetch("https://one.com/", &Timestamp::new(0, 0), Ok(vec![1]));
    assert_eq!(
        client.settle_fetch("https://one.com/", &Timestamp::new(11, 0), down()),
        Ok(vec![1])
    );
    assert_eq!(
        client.take_warnings(),
        vec![
            "Failed to compute a new value for https://one.com/ after expiration. The previous value was used instead."
                .to_string()
        ]
    );
    assert!(client.take_warnings().is_empty());
}

#[test]
fn provider_hands_out_the_warnings_of_its_caching_client() {
    let config = Config {
        categories: categories(vec![("comedy", vec!["https://one.com/rss"])]),
    };
    let client = TableClient::new(vec![("https://one.com/rss", Ok("Title1\n100 Post A"))]);
    let mut provider = caching_feed_provider(config, client, LineDeserializer).unwrap();
    let _ = provider.feed_by_category("comedy").unwrap();
    assert!(provider.take_stale_warnings().is_empty());
}
