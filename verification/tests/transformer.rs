use chrono::DateTime;
use feedragon::error::{ErrorKind, FeedError};
use feedragon::feed_transformer::{
    entries_of_images, image_from_attribute, image_from_libreddit, images_of_page, links_of_page,
    nitter_images, page_address, proxied, scrape_images_from_html, warnings_of_images,
    FeedTransformer,
};
use feedragon::http_client::HttpClient;
use feedragon::model::{Entry, Feed};
use feedragon::time::Timestamp;
use std::collections::HashMap;

const NITTER_SINGLE_IMAGE: &str = r#"<!DOCTYPE html>
<html lang="en">
<head>
<title>Serebii.net (@SerebiiNet): "Serebii Update" | nitter</title>
<meta property="og:type" content="article">
<meta property="og:title" content="Serebii.net (@SerebiiNet)">
<meta property="og:image" content="https://nitter.privacy.qvarford.net/pic/media%2FFY_ABU8XoAAoLX6.jpg">
</head>
<body><div class="main-tweet"><a class="still-image" href="/pic/media%2FFY_ABU8XoAAoLX6.jpg">image</a></div></body>
</html>"#;

const NITTER_TWO_IMAGES: &str = r#"<!DOCTYPE html>
<html>
<head>
<meta property="og:image" content="https://nitter.privacy.qvarford.net/pic/media%2FFZNv5wmXgAE5UOB.jpg">
<meta property="og:image" content="https://nitter.privacy.qvarford.net/pic/media%2FFZNv6siWQAQ6A0t.jpg?name=small">
</head>
<body></body>
</html>"#;

const NITTER_NO_IMAGE: &str = r#"<!DOCTYPE html>
<html>
<head><meta property="og:title" content="jeremy"><meta property="og:description" content="words"></head>
<body><p>No picture here.</p></body>
</html>"#;

const LIBREDDIT_SINGLE_IMAGE: &str = r#"<!DOCTYPE html>
<html>
<head><meta property="og:image" content="https://libredd.it/thumb/yhra1yqisef91.jpg"></head>
<body>
<div class="post">
<a class="post_media_image" href="/preview/pre/yhra1yqisef91.jpg?width=640&amp;s=27a1ac8b9bb17c6a0e0de1c2e3c7d5f4b4d95c3b">
<img alt="Post image" src="/preview/pre/yhra1yqisef91.jpg?width=640"/>
</a>
</div>
</body>
</html>"#;

const LIBREDDIT_TWO_IMAGES: &str = r#"<!DOCTYPE html>
<html>
<body>
<div class="gallery">
<figure><a href="/preview/pre/0kv9uvdzygf91.png?width=1080&amp;s=aa" ><img src="/preview/pre/0kv9uvdzygf91.png"/></a></figure>
<figure><a href="/preview/pre/cvu0eyozygf91.png?width=1080&amp;s=bb" ><img src="/preview/pre/cvu0eyozygf91.png"/></a></figure>
</div>
</body>
</html>"#;

const LIBREDDIT_EXTERNAL_IMAGE: &str = r#"<!DOCTYPE html>
<html>
<body>
<a class="post_media_image" href="/preview/external-pre/89qweeQXjTSRVVKQhcu-mgN2RRQHr7HM1wenvITkRCo.jpg?auto=webp&amp;s=cdd19caa7c0a0fbb85c9699595fe7fa4ab9bd925">
<img src="/preview/external-pre/89qweeQXjTSRVVKQhcu-mgN2RRQHr7HM1wenvITkRCo.jpg"/>
</a>
</body>
</html>"#;

struct HashMapHttpClient {
    hash_map: HashMap<String, &'static str>,
}

impl HttpClient for HashMapHttpClient {
    fn get_bytes(&mut self, url: &str) -> Result<Vec<u8>, FeedError> {
        match self.hash_map.get(url) {
            Some(page) => Ok(page.as_bytes().to_vec()),
            None => Err(FeedError::new(
                ErrorKind::Network,
                "Could not download url".to_string(),
            )),
        }
    }
}

fn transformer(pages: Vec<(&str, &'static str)>) -> FeedTransformer<HashMapHttpClient> {
    FeedTransformer {
        http_client: HashMapHttpClient {
            hash_map: pages
                .into_iter()
                .map(|(url, page)| (url.to_string(), page))
                .collect(),
        },
    }
}

fn entry(id: &str) -> Entry {
    let updated = DateTime::parse_from_rfc3339("2022-03-22T07:26:01+00:00").unwrap();
    Entry {
        id: id.into(),
        summary: "".into(),
        title: "".into(),
        link: id.into(),
        updated: Timestamp::new(updated.timestamp(), updated.timestamp_subsec_nanos()),
    }
}

fn feed(ids: Vec<&'static str>) -> Feed {
    Feed {
        author_name: "".into(),
        id: "".into(),
        link: "https://google.com/".into(),
        title: "".into(),
        entries: ids.into_iter().map(entry).collect(),
    }
}

fn malformed(message: &str) -> FeedError {
    FeedError::new(ErrorKind::Malformed, message.to_string())
}

#[test]
fn nitter_single_image_is_extracted() {
    let url = "https://nitter.privacy.qvarford.net/SerebiiNet/status/1554195261253046272";
    let mut transformer = transformer(vec![(url, NITTER_SINGLE_IMAGE)]);
    let expected_url = "https://nitter.privacy.qvarford.net/pic/media%2FFY_ABU8XoAAoLX6.jpg";
    let mut expected_feed = feed(vec![url]);

    let transformed_feed = transformer.extract_images_from_feed(feed(vec![url]));

    expected_feed.entries[0].id = expected_url.into();
    expected_feed.entries[0].link = expected_url.into();
    assert_eq!(expected_feed, transformed_feed)
}

#[test]
fn libreddit_single_image_is_extracted() {
    let url = "https://libredd.it/r/AceAttorneyCirclejerk/comments/weucga/if_you_criticize_the_quality_of_the_judge_images/";
    let mut transformer = transformer(vec![(url, LIBREDDIT_SINGLE_IMAGE)]);
    let expected_url = "https://libredd.it/img/yhra1yqisef91.jpg";
    let mut expected_feed = feed(vec![url]);

    let transformed_feed = transformer.extract_images_from_feed(feed(vec![url]));

    expected_feed.entries[0].id = expected_url.into();
    expected_feed.entries[0].link = expected_url.into();
    assert_eq!(expected_feed, transformed_feed)
}

#[test]
fn libreddit_external_images_are_proxied() {
    let url = "https://www.reddit.com/r/AceAttorneyCirclejerk/comments/wev5mg/facts/";
    let mut transformer = transformer(vec![(url, LIBREDDIT_EXTERNAL_IMAGE)]);
    let expected_url = "https://feedragon.privacy.qvarford.net/libreddit/ep/YXV0bz13ZWJwJnM9Y2RkMTljYWE3YzBhMGZiYjg1Yzk2OTk1OTVmZTdmYTRhYjliZDkyNQ==/preview/external-pre/89qweeQXjTSRVVKQhcu-mgN2RRQHr7HM1wenvITkRCo.jpg";
    let mut expected_feed = feed(vec![url]);

    let transformed_feed = transformer.extract_images_from_feed(feed(vec![url]));

    expected_feed.entries[0].id = expected_url.into();
    expected_feed.entries[0].link = expected_url.into();
    assert_eq!(expected_feed, transformed_feed)
}

#[test]
fn empty_if_there_are_no_images_to_extract() {
    let url = "https://nitter.privacy.qvarford.net/jeremysmiles/status/1554270809509748737";
    let mut transformer = transformer(vec![(url, NITTER_NO_IMAGE)]);
    let mut expected_feed = feed(vec![url]);

    let transformed_feed = transformer.extract_images_from_feed(feed(vec![url]));

    expected_feed.entries = vec![];
    assert_eq!(expected_feed, transformed_feed)
}

#[test]
fn empty_if_the_page_could_not_be_downloaded() {
    let url = "https://nitter.privacy.qvarford.net/jeremysmiles/status/1554270809509748737";
    let mut transformer = transformer(vec![]);
    let mut expected_feed = feed(vec![url]);

    let transformed_feed = transformer.extract_images_from_feed(feed(vec![url]));

    expected_feed.entries = vec![];
    assert_eq!(expected_feed, transformed_feed)
}

#[test]
fn empty_if_the_page_was_empty() {
    let url = "https://nitter.privacy.qvarford.net/jeremysmiles/status/1554270809509748737";
    let mut transformer = transformer(vec![(url, "")]);
    let mut expected_feed = feed(vec![url]);

    let transformed_feed = transformer.extract_images_from_feed(feed(vec![url]));

    expected_feed.entries = vec![];
    assert_eq!(expected_feed, transformed_feed)
}

#[test]
fn images_from_second_entry_is_extracted_even_if_first_entry_is_invalid() {
    let url = "https://nitter.privacy.qvarford.net/SerebiiNet/status/1554195261253046272";
    let mut transformer = transformer(vec![(url, NITTER_SINGLE_IMAGE)]);
    let expected_url = "https://nitter.privacy.qvarford.net/pic/media%2FFY_ABU8XoAAoLX6.jpg";
    let mut expected_feed = feed(vec!["https://invalid.com", url]);

    let transformed_feed =
        transformer.extract_images_from_feed(feed(vec!["https://invalid.com", url]));

    expected_feed.entries.remove(0);
    expected_feed.entries[0].id = expected_url.into();
    expected_feed.entries[0].link = expected_url.into();
    assert_eq!(expected_feed, transformed_feed)
}

#[test]
fn nitter_multiple_images_can_be_extracted() {
    let url = "https://nitter.privacy.qvarford.net/SerebiiNet/status/1554709371459981313";
    let mut transformer = transformer(vec![(url, NITTER_TWO_IMAGES)]);
    let expected_url1 = "https://nitter.privacy.qvarford.net/pic/media%2FFZNv5wmXgAE5UOB.jpg";
    let expected_url2 = "https://nitter.privacy.qvarford.net/pic/media%2FFZNv6siWQAQ6A0t.jpg";
    let mut expected_feed = feed(vec![url]);

    let transformed_feed = transformer.extract_images_from_feed(feed(vec![url]));

    expected_feed.entries.push(expected_feed.entries[0].clone());
    expected_feed.entries[0].id = expected_url1.into();
    expected_feed.entries[0].link = expected_url1.into();
    expected_feed.entries[1].id = expected_url2.into();
    expected_feed.entries[1].link = expected_url2.into();
    assert_eq!(expected_feed, transformed_feed)
}

#[test]
fn libreddit_multiple_images_can_be_extracted() {
    let url = "https://libredd.it/r/AnarchyChess/comments/wf2945/new_response_just_dropped/";
    let mut transformer = transformer(vec![(url, LIBREDDIT_TWO_IMAGES)]);
    let expected_url1 = "https://libredd.it/img/0kv9uvdzygf91.png";
    let expected_url2 = "https://libredd.it/img/cvu0eyozygf91.png";
    let mut expected_feed = feed(vec![url]);

    let transformed_feed = transformer.extract_images_from_feed(feed(vec![url]));

    expected_feed.entries.push(expected_feed.entries[0].clone());
    expected_feed.entries[0].id = expected_url1.into();
    expected_feed.entries[0].link = expected_url1.into();
    expected_feed.entries[1].id = expected_url2.into();
    expected_feed.entries[1].link = expected_url2.into();
    assert_eq!(expected_feed, transformed_feed)
}

#[test]
fn single_image_comes_before_the_gallery() {
    let page = r#"<div class="gallery"><a href="/g1.png">1</a></div>
<a class="post_media_image" href="/single.png">s</a>
<div class="gallery"><a href="/g2.png">2</a><a>none</a></div>"#;
    let scraped = scrape_images_from_html("https://libredd.it/r/a/", page).unwrap();
    assert_eq!(
        scraped,
        vec![
            Ok("https://libredd.it/single.png".to_string()),
            Ok("https://libredd.it/g1.png".to_string()),
            Ok("https://libredd.it/g2.png".to_string()),
            Err(malformed("Missing content attribute for og:image property")),
        ]
    );
}

#[test]
fn nitter_page_is_read_by_its_properties() {
    let page = r#"<meta property="og:image" content="https://a.com/1.jpg">
<meta property="og:image">
<a class="post_media_image" href="/single.png">s</a>"#;
    let scraped = scrape_images_from_html("https://nitter.net/a", page).unwrap();
    assert_eq!(
        scraped,
        vec![
            Ok("https://a.com/1.jpg".to_string()),
            Err(malformed("Missing content attribute for og:image property")),
        ]
    );
}

#[test]
fn image_is_the_attribute_or_an_error() {
    assert_eq!(image_from_attribute(Some("x".to_string())), Ok("x".to_string()));
    assert_eq!(
        image_from_attribute(None),
        Err(malformed("Missing content attribute for og:image property"))
    );
    assert_eq!(
        nitter_images(vec![Some("a".to_string()), None, Some("b".to_string())]),
        vec![
            Ok("a".to_string()),
            Err(malformed("Missing content attribute for og:image property")),
            Ok("b".to_string())
        ]
    );
}

#[test]
fn libreddit_links_are_rewritten() {
    assert_eq!(
        image_from_libreddit("/preview/pre/a.jpg?x=1"),
        Ok("https://libredd.it/img/a.jpg?x=1".to_string())
    );
    assert_eq!(
        image_from_libreddit("/preview/pre/preview/preview/pre.jpg"),
        Ok("https://libredd.it/img/imgview/pre.jpg".to_string())
    );
    assert_eq!(
        image_from_libreddit("/img/a.jpg"),
        Ok("https://libredd.it/img/a.jpg".to_string())
    );
    assert_eq!(
        image_from_libreddit("/preview/external-pre/a.jpg?auto=webp"),
        Ok("https://feedragon.privacy.qvarford.net/libreddit/ep/YXV0bz13ZWJw/preview/external-pre/a.jpg".to_string())
    );
    assert_eq!(
        image_from_libreddit("/preview/external-pre/a.jpg"),
        Ok("https://feedragon.privacy.qvarford.net/libreddit/ep//preview/external-pre/a.jpg".to_string())
    );
    assert_eq!(
        image_from_libreddit(":x/preview/external-pre/a.jpg"),
        Err(malformed(
            "Invalid link https://libredd.it:x/preview/external-pre/a.jpg during image extraction.: invalid port number"
        ))
    );
    assert_eq!(
        proxied("cXVlcnk=", "/path"),
        "https://feedragon.privacy.qvarford.net/libreddit/ep/cXVlcnk=/path"
    );
}

#[test]
fn links_of_a_page_lose_their_queries() {
    assert_eq!(
        links_of_page(
            "https://page.com/",
            vec![
                Ok("https://a.com/1.jpg?name=small#top".to_string()),
                Ok("https://b.com".to_string())
            ]
        ),
        Ok(vec!["https://a.com/1.jpg#top".to_string(), "https://b.com/".to_string()])
    );
    assert_eq!(links_of_page("https://page.com/", vec![]), Ok(vec![]));
}

#[test]
fn first_failure_among_the_links_fails_the_page() {
    assert_eq!(
        links_of_page(
            "https://page.com/",
            vec![
                Ok("https://a.com/1.jpg".to_string()),
                Ok("/relative.jpg".to_string()),
                Err(malformed("later")),
            ]
        ),
        Err(malformed(
            "Invalid link https://page.com/ during image extraction.: relative URL without a base"
        ))
    );
    assert_eq!(
        links_of_page(
            "https://page.com/",
            vec![Err(malformed("first")), Ok("/relative.jpg".to_string())]
        ),
        Err(malformed("first"))
    );
}

#[test]
fn page_must_be_fetched_and_be_text() {
    let down = FeedError::new(ErrorKind::Network, "down".to_string());
    assert_eq!(images_of_page("https://nitter.net/a", Err(down.clone())), Err(down));
    assert_eq!(
        images_of_page("https://nitter.net/a", Ok(vec![0xff, 0xfe])),
        Err(malformed("Page at https://nitter.net/a is not valid utf8"))
    );
    assert_eq!(
        images_of_page("https://nitter.net/a", Ok(NITTER_TWO_IMAGES.as_bytes().to_vec())),
        Ok(vec![
            "https://nitter.privacy.qvarford.net/pic/media%2FFZNv5wmXgAE5UOB.jpg".to_string(),
            "https://nitter.privacy.qvarford.net/pic/media%2FFZNv6siWQAQ6A0t.jpg".to_string()
        ])
    );
}

#[test]
fn page_whose_address_is_no_url_is_not_fetched() {
    let mut transformer = transformer(vec![]);
    assert_eq!(
        transformer.extract_images_from_page("nitter".to_string()),
        Err(malformed(
            "Invalid link nitter during image extraction.: relative URL without a base"
        ))
    );
    assert!(transformer.extract_images_from_entry(entry("nitter")).is_empty());
}

#[test]
fn image_entries_keep_what_the_entry_says() {
    let post = Entry {
        id: "https://a.com/post".into(),
        link: "https://a.com/post".into(),
        title: "Title".into(),
        summary: "Summary".into(),
        updated: Timestamp::new(9, 1),
    };
    let images = entries_of_images(
        post.clone(),
        Ok(vec!["https://a.com/1.jpg".to_string(), "https://a.com/2.jpg".to_string()]),
    );
    assert_eq!(
        images,
        vec![
            Entry {
                id: "https://a.com/1.jpg".into(),
                link: "https://a.com/1.jpg".into(),
                ..post.clone()
            },
            Entry {
                id: "https://a.com/2.jpg".into(),
                link: "https://a.com/2.jpg".into(),
                ..post.clone()
            }
        ]
    );
    assert!(entries_of_images(post, Err(malformed("nothing"))).is_empty());
}

#[test]
fn entry_whose_images_cannot_be_had_is_warned_of() {
    let url = "https://nitter.privacy.qvarford.net/SerebiiNet/status/1554195261253046272";
    let mut transformer = transformer(vec![(url, NITTER_SINGLE_IMAGE)]);
    let found = transformer
        .extract_images_from_feed_with_warnings(feed(vec!["https://invalid.com", url, "no url"]));
    assert_eq!(found.feed.entries.len(), 1);
    assert_eq!(
        found.warnings,
        vec![
            "Could not extract images from https://invalid.com. Error: Could not download url"
                .to_string(),
            "Could not extract images from no url. Error: Invalid link no url during image extraction.: relative URL without a base"
                .to_string(),
        ]
    );
}

#[test]
fn warning_is_that_of_the_failure() {
    let post = entry("https://a.com/post");
    assert_eq!(
        warnings_of_images(&post, &Err(malformed("nothing"))),
        vec!["Could not extract images from https://a.com/post. Error: nothing".to_string()]
    );
    assert!(warnings_of_images(&post, &Ok(vec!["https://a.com/1.jpg".to_string()])).is_empty());
    assert!(warnings_of_images(&post, &Ok(vec![])).is_empty());
}

#[test]
fn page_is_fetched_at_its_address_written_in_full() {
    assert_eq!(
        page_address("HTTPS://Nitter.net/a b"),
        Ok("https://nitter.net/a%20b".to_string())
    );
    assert_eq!(
        page_address("nitter"),
        Err(malformed(
            "Invalid link nitter during image extraction.: relative URL without a base"
        ))
    );
}

#[test]
fn feed_takes_other_entries() {
    let images = feed(vec!["https://a.com/1"]).with_entries(vec![entry("https://a.com/2")]);
    assert_eq!(images, feed(vec!["https://a.com/2"]));
}
