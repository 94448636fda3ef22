//! Reading an Atom document as a feed.

use crate::atom::{first_link_of_type, href_of_type, AtomEntry, AtomFeed, Link};
use crate::error::{with_context, ErrorKind, FeedError, FeedErrorView};
use crate::links::{parse_url, url_parsed};
use crate::model::{entry_views, unknown_author, Entry, EntryView, Feed, FeedView};
use crate::sequence::reversed;
use crate::serialization::{
    entry_context, feed_result_view, invalid_xml_structure, malformed, DocumentReader,
    FeedDeserializer,
};
use crate::time::{
    current_time, format_rfc3339, instant_result, parse_rfc3339, rfc3339_parsed, rfc3339_text,
    Timestamp,
};
use vstd::prelude::*;
use vstd::string::StringExecFns;

verus! {

/// The type of the link by which an Atom feed points to itself.
pub open spec fn atom_link_type() -> Seq<char> {
    "application/atom+xml"@
}

/// What an Atom entry comes to, given what parsing its `updated` element
/// gave. Title and summary are the entry's title, link and id the target
/// of its link.
pub open spec fn atom_entry_with(entry: AtomEntry, parsed: Result<Timestamp, Seq<char>>) -> Result<
    EntryView,
    FeedErrorView,
> {
    match parsed {
        Ok(updated) => Ok(
            EntryView {
                title: entry.title@,
                link: entry.link.href@,
                id: entry.link.href@,
                updated,
                summary: entry.title@,
            },
        ),
        Err(cause) => Err(
            FeedErrorView {
                kind: ErrorKind::Malformed,
                message: with_context(
                    entry_context(),
                    malformed("Failed to parse 'updated' element: "@ + cause).message,
                ),
            },
        ),
    }
}

/// What an Atom entry comes to.
pub open spec fn atom_entry(entry: AtomEntry) -> Result<EntryView, FeedErrorView> {
    atom_entry_with(entry, rfc3339_parsed(entry.updated@))
}

/// What the entries of an Atom document come to: all of them in order, or
/// the error of the first that cannot be read.
pub open spec fn atom_entries(entries: Seq<AtomEntry>) -> Result<Seq<EntryView>, FeedErrorView>
    decreases entries.len(),
{
    if entries.len() == 0 {
        Ok(Seq::empty())
    } else {
        match atom_entries(entries.drop_last()) {
            Err(error) => Err(error),
            Ok(read) => match atom_entry(entries.last()) {
                Ok(entry) => Ok(read.push(entry)),
                Err(error) => Err(error),
            },
        }
    }
}

/// What an Atom document comes to, given what parsing the target of its
/// link to itself gave, where it has such a link.
pub open spec fn atom_feed_with(
    document: AtomFeed,
    link: Option<Result<Seq<char>, Seq<char>>>,
) -> Result<FeedView, FeedErrorView> {
    match link {
        None => Err(malformed("Could not find link.type='application/atom+xml' in atom feed"@)),
        Some(Err(cause)) => Err(malformed("Failed to parse 'link.href' in atom feed: "@ + cause)),
        Some(Ok(full)) => match atom_entries(document.entries@) {
            Err(error) => Err(error),
            Ok(entries) => Ok(
                FeedView {
                    title: document.title@,
                    link: full,
                    author_name: unknown_author(),
                    id: document.title@,
                    entries,
                },
            ),
        },
    }
}

/// What an Atom document comes to. It must link to itself as an Atom
/// feed, that link must be a URL, and every entry must say when it was
/// updated; the feed is then named after the document's title.
pub open spec fn atom_feed(document: AtomFeed) -> Result<FeedView, FeedErrorView> {
    atom_feed_with(
        document,
        match first_link_of_type(document.links@, atom_link_type()) {
            None => None,
            Some(link) => Some(url_parsed(link.href@)),
        },
    )
}

/// An entry or an error, as mathematical values.
pub open spec fn entry_result_view(result: Result<Entry, FeedError>) -> Result<
    EntryView,
    FeedErrorView,
> {
    match result {
        Ok(entry) => Ok(entry@),
        Err(error) => Err(error@),
    }
}

/// Reads one entry, given what parsing its `updated` element gave.
pub fn entry_from_atom(entry: AtomEntry, parsed: Result<Timestamp, String>) -> (result: Result<
    Entry,
    FeedError,
>)
    ensures
        entry_result_view(result) == atom_entry_with(entry, instant_result(parsed)),
{
    match parsed {
        Ok(updated) => Ok(
            Entry {
                id: entry.link.href.clone(),
                summary: entry.title.clone(),
                link: entry.link.href,
                title: entry.title,
                updated,
            },
        ),
        Err(cause) => {
            let mut detail = String::from_str("Failed to parse 'updated' element: ");
            detail.append(cause.as_str());
            Err(invalid_xml_structure(detail).context("Failed to deserialize an atom feed entry"))
        },
    }
}

/// Reads the entries of a document in their order, up to the first that
/// cannot be read.
fn entries_from_atom(entries: Vec<AtomEntry>) -> (result: Result<Vec<Entry>, FeedError>)
    ensures
        match atom_entries(entries@) {
            Ok(read) => result is Ok && entry_views(result->Ok_0@) == read,
            Err(error) => result is Err && result->Err_0@ == error,
        },
{
    let ghost all = entries@;
    let mut rest = reversed(entries);
    let mut read: Vec<Entry> = Vec::new();
    proof {
        assert(all.take(0) =~= Seq::<AtomEntry>::empty());
        assert(entry_views(read@) =~= Seq::<EntryView>::empty());
    }
    while rest.len() > 0
        invariant
            all == entries@,
            rest@.len() <= all.len(),
            rest@ == all.reverse().take(rest@.len() as int),
            atom_entries(all.take(all.len() - rest@.len())) == Ok::<Seq<EntryView>, FeedErrorView>(
                entry_views(read@),
            ),
        decreases rest.len(),
    {
        let ghost n = rest@.len() as int;
        let ghost k = all.len() - n;
        let ghost done = entry_views(read@);
        let entry = rest.pop().unwrap();
        proof {
            assert(all.reverse().take(n)[n - 1] == all[k]);
            assert(rest@ =~= all.reverse().take(n - 1));
            assert(all.take(k + 1).drop_last() =~= all.take(k));
            assert(all.take(k + 1).last() == all[k]);
        }
        let parsed = parse_rfc3339(entry.updated.as_str());
        match entry_from_atom(entry, parsed) {
            Ok(entry) => {
                read.push(entry);
                assert(entry_views(read@) =~= done.push(entry@));
            },
            Err(error) => {
                proof {
                    lemma_atom_entries_fail_on(all, k + 1);
                }
                return Err(error);
            },
        }
    }
    proof {
        assert(all.take(all.len() as int) =~= all);
    }
    Ok(read)
}

/// The error of the first entries stays the error of them all.
proof fn lemma_atom_entries_fail_on(entries: Seq<AtomEntry>, n: int)
    requires
        0 <= n <= entries.len(),
        atom_entries(entries.take(n)) is Err,
    ensures
        atom_entries(entries) == atom_entries(entries.take(n)),
    decreases entries.len() - n,
{
    if n < entries.len() {
        assert(entries.take(n + 1).drop_last() =~= entries.take(n));
        lemma_atom_entries_fail_on(entries, n + 1);
    } else {
        assert(entries.take(n) =~= entries);
    }
}

/// A reader of feeds in the Atom format.
pub struct AtomDeserializer<R: DocumentReader<AtomFeed>> {
    pub reader: R,
}

impl<R: DocumentReader<AtomFeed>> AtomDeserializer<R> {
    /// Reads the feed out of an Atom document. The document must link to
    /// itself as an Atom feed, that link must be a URL, and every entry
    /// must say when it was updated.
    pub fn feed_from_document(document: AtomFeed) -> (result: Result<Feed, FeedError>)
        ensures
            feed_result_view(result) == atom_feed(document),
    {
        let href = match href_of_type(&document.links, "application/atom+xml") {
            Some(href) => href,
            None => {
                return Err(
                    invalid_xml_structure(
                        String::from_str(
                            "Could not find link.type='application/atom+xml' in atom feed",
                        ),
                    ),
                );
            },
        };
        let link = match parse_url(href.as_str()) {
            Ok(link) => link,
            Err(cause) => {
                let mut detail = String::from_str("Failed to parse 'link.href' in atom feed: ");
                detail.append(cause.as_str());
                return Err(invalid_xml_structure(detail));
            },
        };
        let entries = match entries_from_atom(document.entries) {
            Ok(entries) => entries,
            Err(error) => {
                return Err(error);
            },
        };
        Ok(
            Feed {
                author_name: String::from_str("Unknown"),
                id: document.title.clone(),
                link,
                title: document.title,
                entries,
            },
        )
    }
}

impl<R: DocumentReader<AtomFeed>> FeedDeserializer for AtomDeserializer<R> {
    /// Reads the XML with the reader and the feed out of the document.
    /// Bytes that the reader refuses are malformed.
    fn parse_feed_from_bytes(&self, bytes: &[u8]) -> (result: Result<Feed, FeedError>)
        ensures
            exists|read: Result<AtomFeed, String>| #[trigger]
                is_read_as_atom(result, read),
    {
        let read = self.reader.read_document(bytes);
        let result = match read {
            Ok(document) => Self::feed_from_document(document),
            Err(cause) => Err(invalid_xml_structure(cause)),
        };
        assert(is_read_as_atom(result, read));
        result
    }
}

/// `result` is what bytes come to of which the reader made `read`.
pub open spec fn is_read_as_atom(result: Result<Feed, FeedError>, read: Result<AtomFeed, String>) -> bool {
    match read {
        Ok(document) => feed_result_view(result) == atom_feed(document),
        Err(cause) => feed_result_view(result) == Err::<FeedView, FeedErrorView>(malformed(cause@)),
    }
}

/// `link` points to `href`, in the relation `rel`, at something of the
/// type `link_type`.
pub open spec fn is_link(link: Link, href: Seq<char>, rel: Seq<char>, link_type: Seq<char>) -> bool {
    link.href@ == href && link.rel@ == rel && link.link_type@ == link_type
}

/// `written` is the entry `entry` as an element of an Atom document: it has
/// the entry's title and id, links to the entry's link as an alternate,
/// and says when the entry was updated.
pub open spec fn is_entry_element(written: AtomEntry, entry: EntryView) -> bool {
    &&& written.title@ == entry.title
    &&& written.id@ == entry.id
    &&& is_link(written.link, entry.link, "alternate"@, Seq::empty())
    &&& rfc3339_text(entry.updated) == Some(written.updated@)
}

/// `document` is the feed `feed` as an Atom document that was written at
/// `now`: it has the feed's title, links to the feed itself, and holds the
/// feed's entries in their order.
pub open spec fn is_document_of(document: AtomFeed, feed: FeedView, now: Timestamp) -> bool {
    &&& document.title@ == feed.title
    &&& rfc3339_text(now) == Some(document.updated@)
    &&& document.links@.len() == 1
    &&& is_link(document.links@[0], feed.link, "self"@, atom_link_type())
    &&& document.entries@.len() == feed.entries.len()
    &&& forall|i: int|
        0 <= i < feed.entries.len() ==> is_entry_element(
            #[trigger] document.entries@[i],
            feed.entries[i],
        )
}

/// The instant of the document and that of every entry can be written.
pub open spec fn can_be_written(feed: FeedView, now: Timestamp) -> bool {
    &&& rfc3339_text(now) is Some
    &&& forall|i: int|
        0 <= i < feed.entries.len() ==> rfc3339_text((#[trigger] feed.entries[i]).updated) is Some
}

/// The error for an instant that cannot be written.
pub open spec fn unwritable_instant() -> FeedErrorView {
    FeedErrorView {
        kind: ErrorKind::Malformed,
        message: "Failed to serialize feed: an instant is out of range"@,
    }
}

impl Feed {
    /// The feed as an Atom document written at `now`. Every instant must
    /// be one that can be written as a date and time.
    pub fn atom_document(self, now: &Timestamp) -> (result: Result<AtomFeed, FeedError>)
        ensures
            match result {
                Ok(document) => can_be_written(self@, *now) && is_document_of(
                    document,
                    self@,
                    *now,
                ),
                Err(error) => !can_be_written(self@, *now) && error@ == unwritable_instant(),
            },
    {
        let ghost given = self@.entries;
        let updated = match format_rfc3339(now) {
            Some(updated) => updated,
            None => {
                return Err(unwritable());
            },
        };
        let mut rest = reversed(self.entries);
        let mut entries: Vec<AtomEntry> = Vec::new();
        while rest.len() > 0
            invariant
                given == entry_views(self.entries@),
                rfc3339_text(*now) == Some(updated@),
                rest@.len() <= given.len(),
                rest@ == self.entries@.reverse().take(rest@.len() as int),
                entries@.len() == given.len() - rest@.len(),
                forall|i: int|
                    0 <= i < entries@.len() ==> is_entry_element(#[trigger] entries@[i], given[i]),
            decreases rest.len(),
        {
            let ghost n = rest@.len() as int;
            let ghost k = given.len() - n;
            let entry = rest.pop().unwrap();
            proof {
                assert(self.entries@.reverse().take(n)[n - 1] == self.entries@[k]);
                assert(rest@ =~= self.entries@.reverse().take(n - 1));
                assert(entry@ == given[k]);
            }
            let written = match format_rfc3339(&entry.updated) {
                Some(written) => written,
                None => {
                    assert(rfc3339_text(given[k].updated) is None);
                    return Err(unwritable());
                },
            };
            entries.push(
                AtomEntry {
                    id: entry.id,
                    link: Link {
                        rel: String::from_str("alternate"),
                        href: entry.link,
                        link_type: String::new(),
                    },
                    title: entry.title,
                    updated: written,
                },
            );
        }
        let mut links: Vec<Link> = Vec::new();
        links.push(
            Link {
                link_type: String::from_str("application/atom+xml"),
                rel: String::from_str("self"),
                href: self.link,
            },
        );
        let document = AtomFeed { title: self.title, links, entries, updated };
        proof {
            assert forall|i: int| 0 <= i < given.len() implies rfc3339_text(
                (#[trigger] given[i]).updated,
            ) is Some by {
                assert(is_entry_element(document.entries@[i], given[i]));
            }
        }
        Ok(document)
    }

    /// The feed as an Atom document written now, by the clock.
    pub fn to_atom_document(self) -> (result: Result<AtomFeed, FeedError>)
        ensures
            exists|now: Timestamp|
                match result {
                    Ok(document) => #[trigger] can_be_written(self@, now) && is_document_of(
                        document,
                        self@,
                        now,
                    ),
                    Err(error) => !can_be_written(self@, now) && error@ == unwritable_instant(),
                },
    {
        let now = current_time();
        let result = self.atom_document(&now);
        assert(match result {
            Ok(document) => can_be_written(self@, now) && is_document_of(document, self@, now),
            Err(error) => !can_be_written(self@, now) && error@ == unwritable_instant(),
        });
        result
    }
}

/// The error for an instant that cannot be written.
fn unwritable() -> (error: FeedError)
    ensures
        error@ == unwritable_instant(),
{
    FeedError::new(
        ErrorKind::Malformed,
        String::from_str("Failed to serialize feed: an instant is out of range"),
    )
}

} // verus!
