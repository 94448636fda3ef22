//! An RSS document as it stands in the XML, and reading it as a feed.

use crate::atom::{first_link_of_type, href_of_type, Link};
use crate::error::{with_context, ErrorKind, FeedError, FeedErrorView};
use crate::links::{parse_url, url_parsed};
use crate::model::{entry_views, unknown_author, Entry, EntryView, Feed, FeedView};
use crate::sequence::reversed;
use crate::serialization::{
    entry_context, feed_result_view, invalid_xml_structure, malformed, DocumentReader,
    FeedDeserializer,
};
use crate::time::{instant_result, parse_rfc2822, rfc2822_parsed, Timestamp};
use vstd::prelude::*;
use vstd::string::StringExecFns;

verus! {

/// An `item` element.
#[derive(Debug, PartialEq, Clone, Default)]
pub struct Item {
    pub id: String,
    pub link: String,
    pub description: String,
    pub title: String,
    pub updated: String,
}

/// A `channel` element.
#[derive(Debug, PartialEq, Clone, Default)]
pub struct Channel {
    pub link: Vec<Link>,
    pub title: String,
    pub items: Vec<Item>,
}

/// An `rss` element.
#[derive(Debug, PartialEq, Clone, Default)]
pub struct Rss {
    pub channel: Channel,
}

/// The type of the link by which an RSS feed points to itself.
pub open spec fn rss_link_type() -> Seq<char> {
    "application/rss+xml"@
}

/// What an RSS item comes to, given what parsing its date gave.
pub open spec fn rss_entry_with(item: Item, parsed: Result<Timestamp, Seq<char>>) -> Result<
    EntryView,
    FeedErrorView,
> {
    match parsed {
        Ok(updated) => Ok(
            EntryView {
                title: item.title@,
                link: item.link@,
                id: item.id@,
                updated,
                summary: item.description@,
            },
        ),
        Err(cause) => Err(
            FeedErrorView {
                kind: ErrorKind::Malformed,
                message: with_context(
                    entry_context(),
                    malformed("Invalid rss date time: "@ + cause).message,
                ),
            },
        ),
    }
}

/// What an RSS item comes to.
pub open spec fn rss_entry(item: Item) -> Result<EntryView, FeedErrorView> {
    rss_entry_with(item, rfc2822_parsed(item.updated@))
}

/// What the items of an RSS document come to: all of them in order, or the
/// error of the first that cannot be read.
pub open spec fn rss_entries(items: Seq<Item>) -> Result<Seq<EntryView>, FeedErrorView>
    decreases items.len(),
{
    if items.len() == 0 {
        Ok(Seq::empty())
    } else {
        match rss_entries(items.drop_last()) {
            Err(error) => Err(error),
            Ok(read) => match rss_entry(items.last()) {
                Ok(entry) => Ok(read.push(entry)),
                Err(error) => Err(error),
            },
        }
    }
}

/// What an RSS document comes to, given what parsing the target of its
/// link to itself gave, where it has such a link.
pub open spec fn rss_feed_with(document: Rss, link: Option<Result<Seq<char>, Seq<char>>>) -> Result<
    FeedView,
    FeedErrorView,
> {
    match link {
        None => Err(malformed("Could not find self-referencial link in rss feed"@)),
        Some(Err(cause)) => Err(malformed("Invalid url "@ + cause)),
        Some(Ok(full)) => match rss_entries(document.channel.items@) {
            Err(error) => Err(error),
            Ok(entries) => Ok(
                FeedView {
                    title: document.channel.title@,
                    link: full,
                    author_name: unknown_author(),
                    id: document.channel.title@,
                    entries,
                },
            ),
        },
    }
}

/// What an RSS document comes to. Its channel must link to itself as an
/// RSS feed, that link must be a URL, and every item must carry a date;
/// the feed is then named after the channel's title.
pub open spec fn rss_feed(document: Rss) -> Result<FeedView, FeedErrorView> {
    rss_feed_with(
        document,
        match first_link_of_type(document.channel.link@, rss_link_type()) {
            None => None,
            Some(link) => Some(url_parsed(link.href@)),
        },
    )
}

/// An entry or an error, as mathematical values.
pub open spec fn item_result_view(result: Result<Entry, FeedError>) -> Result<
    EntryView,
    FeedErrorView,
> {
    match result {
        Ok(entry) => Ok(entry@),
        Err(error) => Err(error@),
    }
}

/// Reads one item, given what parsing its date gave.
pub fn entry_from_item(item: Item, parsed: Result<Timestamp, String>) -> (result: Result<
    Entry,
    FeedError,
>)
    ensures
        item_result_view(result) == rss_entry_with(item, instant_result(parsed)),
{
    match parsed {
        Ok(updated) => Ok(
            Entry {
                id: item.id,
                link: item.link,
                summary: item.description,
                title: item.title,
                updated,
            },
        ),
        Err(cause) => {
            let mut detail = String::from_str("Invalid rss date time: ");
            detail.append(cause.as_str());
            Err(invalid_xml_structure(detail).context("Failed to deserialize an atom feed entry"))
        },
    }
}

/// The error of the first items stays the error of them all.
proof fn lemma_rss_entries_fail_on(items: Seq<Item>, n: int)
    requires
        0 <= n <= items.len(),
        rss_entries(items.take(n)) is Err,
    ensures
        rss_entries(items) == rss_entries(items.take(n)),
    decreases items.len() - n,
{
    if n < items.len() {
        assert(items.take(n + 1).drop_last() =~= items.take(n));
        lemma_rss_entries_fail_on(items, n + 1);
    } else {
        assert(items.take(n) =~= items);
    }
}

/// Reads the items of a document in their order, up to the first that
/// cannot be read.
fn entries_from_items(items: Vec<Item>) -> (result: Result<Vec<Entry>, FeedError>)
    ensures
        match rss_entries(items@) {
            Ok(read) => result is Ok && entry_views(result->Ok_0@) == read,
            Err(error) => result is Err && result->Err_0@ == error,
        },
{
    let ghost all = items@;
    let mut rest = reversed(items);
    let mut read: Vec<Entry> = Vec::new();
    proof {
        assert(all.take(0) =~= Seq::<Item>::empty());
        assert(entry_views(read@) =~= Seq::<EntryView>::empty());
    }
    while rest.len() > 0
        invariant
            all == items@,
            rest@.len() <= all.len(),
            rest@ == all.reverse().take(rest@.len() as int),
            rss_entries(all.take(all.len() - rest@.len())) == Ok::<Seq<EntryView>, FeedErrorView>(
                entry_views(read@),
            ),
        decreases rest.len(),
    {
        let ghost n = rest@.len() as int;
        let ghost k = all.len() - n;
        let ghost done = entry_views(read@);
        let item = rest.pop().unwrap();
        proof {
            assert(all.reverse().take(n)[n - 1] == all[k]);
            assert(rest@ =~= all.reverse().take(n - 1));
            assert(all.take(k + 1).drop_last() =~= all.take(k));
            assert(all.take(k + 1).last() == all[k]);
        }
        let parsed = parse_rfc2822(item.updated.as_str());
        match entry_from_item(item, parsed) {
            Ok(entry) => {
                read.push(entry);
                assert(entry_views(read@) =~= done.push(entry@));
            },
            Err(error) => {
                proof {
                    lemma_rss_entries_fail_on(all, k + 1);
                }
                return Err(error);
            },
        }
    }
    proof {
        assert(all.take(all.len() as int) =~= all);
    }
    Ok(read)
}

/// `result` is what bytes come to of which the reader made `read`.
pub open spec fn is_read_as_rss(result: Result<Feed, FeedError>, read: Result<Rss, String>) -> bool {
    match read {
        Ok(document) => feed_result_view(result) == rss_feed(document),
        Err(cause) => feed_result_view(result) == Err::<FeedView, FeedErrorView>(malformed(cause@)),
    }
}

/// A reader of feeds in the RSS format.
pub struct RssDeserializer<R: DocumentReader<Rss>> {
    pub reader: R,
}

impl<R: DocumentReader<Rss>> RssDeserializer<R> {
    /// Reads the feed out of an RSS document. Its channel must link to
    /// itself as an RSS feed, that link must be a URL, and every item must
    /// carry a date.
    pub fn feed_from_document(document: Rss) -> (result: Result<Feed, FeedError>)
        ensures
            feed_result_view(result) == rss_feed(document),
    {
        // The channel also holds the plain link element of RSS, which has no
        // type: the link to the feed itself is found by its type.
        let href = match href_of_type(&document.channel.link, "application/rss+xml") {
            Some(href) => href,
            None => {
                return Err(
                    invalid_xml_structure(
                        String::from_str("Could not find self-referencial link in rss feed"),
                    ),
                );
            },
        };
        let link = match parse_url(href.as_str()) {
            Ok(link) => link,
            Err(cause) => {
                let mut detail = String::from_str("Invalid url ");
                detail.append(cause.as_str());
                return Err(invalid_xml_structure(detail));
            },
        };
        let channel = document.channel;
        let entries = match entries_from_items(channel.items) {
            Ok(entries) => entries,
            Err(error) => {
                return Err(error);
            },
        };
        Ok(
            Feed {
                author_name: String::from_str("Unknown"),
                id: channel.title.clone(),
                entries,
                link,
                title: channel.title,
            },
        )
    }
}

impl<R: DocumentReader<Rss>> FeedDeserializer for RssDeserializer<R> {
    /// Reads the XML with the reader and the feed out of the document.
    /// Bytes that the reader refuses are malformed.
    fn parse_feed_from_bytes(&self, bytes: &[u8]) -> (result: Result<Feed, FeedError>)
        ensures
            exists|read: Result<Rss, String>| #[trigger] is_read_as_rss(result, read),
    {
        let read = self.reader.read_document(bytes);
        let result = match read {
            Ok(document) => Self::feed_from_document(document),
            Err(cause) => Err(invalid_xml_structure(cause)),
        };
        assert(is_read_as_rss(result, read));
        result
    }
}

} // verus!
