//! Turning a feed of posts into a feed of the images that the posts show.

use crate::error::{with_context, ErrorKind, FeedError, FeedErrorView};
use crate::html::{select_attributes, selected_attributes, value_view};
use crate::http_client::HttpClient;
use crate::links::{
    parse_url, parse_without_query, query_and_path, url_parsed, url_query_and_path,
    url_without_query,
};
use crate::model::{entry_views, Entry, EntryView, Feed, FeedView};
use crate::sequence::{reversed, texts};
use crate::text::{
    base64_encoded, contains, contains_text, encode_base64, replace, replaced, text_of_utf8,
};
use vstd::prelude::*;
use vstd::string::StringExecFns;
use vstd::utf8::{decode_utf8, valid_utf8};

verus! {

/// A link or an error, as mathematical values.
pub open spec fn link_view(link: Result<String, FeedError>) -> Result<Seq<char>, FeedErrorView> {
    match link {
        Ok(text) => Ok(text@),
        Err(error) => Err(error@),
    }
}

/// The error for an element that lacks the attribute with its image.
pub open spec fn missing_attribute() -> FeedErrorView {
    FeedErrorView {
        kind: ErrorKind::Malformed,
        message: "Missing content attribute for og:image property"@,
    }
}

/// The error for a link that is no URL, found while looking at `url`.
pub open spec fn invalid_link(url: Seq<char>, cause: Seq<char>) -> FeedErrorView {
    FeedErrorView {
        kind: ErrorKind::Malformed,
        message: with_context("Invalid link "@ + url + " during image extraction."@, cause),
    }
}

/// The image that an element names in an attribute, or the error that it
/// names none.
pub open spec fn image_of(value: Option<Seq<char>>) -> Result<Seq<char>, FeedErrorView> {
    match value {
        Some(image) => Ok(image),
        None => Err(missing_attribute()),
    }
}

/// Where a path of libreddit is found.
pub open spec fn libreddit_address(href: Seq<char>) -> Seq<char> {
    "https://libredd.it"@ + href
}

/// Where an image is found that libreddit shows from elsewhere: at this
/// service, which is given the query in base64 and the path.
pub open spec fn proxy_address(encoded_query: Seq<char>, path: Seq<char>) -> Seq<char> {
    "https://feedragon.privacy.qvarford.net/libreddit/ep/"@ + encoded_query + path
}

/// The address with the preview of an image exchanged for the image.
pub open spec fn full_image(address: Seq<char>) -> Seq<char> {
    replaced(address, "preview/pre"@, "img"@)
}

/// Where the image is found to which libreddit links with `href`. An
/// image from elsewhere is asked of this service.
pub open spec fn libreddit_image(href: Seq<char>) -> Result<Seq<char>, FeedErrorView> {
    let address = libreddit_address(href);
    if contains_text(address, "preview/external-pre"@) {
        match url_query_and_path(address) {
            Err(cause) => Err(invalid_link(address, cause)),
            Ok((Some(query), path)) => Ok(full_image(proxy_address(base64_encoded(query), path))),
            Ok((None, path)) => Ok(full_image(proxy_address(Seq::empty(), path))),
        }
    } else {
        Ok(full_image(address))
    }
}

/// The image of an element of a libreddit page, or the error that it
/// links to none.
pub open spec fn libreddit_image_of(value: Option<Seq<char>>) -> Result<Seq<char>, FeedErrorView> {
    match value {
        Some(href) => libreddit_image(href),
        None => Err(missing_attribute()),
    }
}

/// The image that an element names in an attribute.
pub fn image_from_attribute(value: Option<String>) -> (image: Result<String, FeedError>)
    ensures
        link_view(image) == image_of(value_view(value)),
{
    match value {
        Some(image) => Ok(image),
        None => Err(
            FeedError::new(
                ErrorKind::Malformed,
                String::from_str("Missing content attribute for og:image property"),
            ),
        ),
    }
}

/// The error for a link that is no URL, found while looking at `url`.
fn invalid_link_error(url: &str, cause: String) -> (error: FeedError)
    ensures
        error@ == invalid_link(url@, cause@),
{
    let mut context = String::from_str("Invalid link ");
    context.append(url);
    context.append(" during image extraction.");
    FeedError::new(ErrorKind::Malformed, cause).context(context.as_str())
}

/// The address at this service of an image that libreddit shows from
/// elsewhere, given the query of the image in base64 and its path.
pub fn proxied(encoded_query: &str, path: &str) -> (address: String)
    ensures
        address@ == proxy_address(encoded_query@, path@),
{
    let mut address = String::from_str("https://feedragon.privacy.qvarford.net/libreddit/ep/");
    address.append(encoded_query);
    address.append(path);
    address
}

/// Where the image is found to which libreddit links with `href`.
pub fn image_from_libreddit(href: &str) -> (image: Result<String, FeedError>)
    ensures
        link_view(image) == libreddit_image(href@),
{
    let mut address = String::from_str("https://libredd.it");
    address.append(href);
    let address = if contains(address.as_str(), "preview/external-pre") {
        match query_and_path(address.as_str()) {
            Err(cause) => {
                return Err(invalid_link_error(address.as_str(), cause));
            },
            Ok((Some(query), path)) => {
                let encoded = encode_base64(query.as_str());
                proxied(encoded.as_str(), path.as_str())
            },
            Ok((None, path)) => {
                let address = proxied("", path.as_str());
                proof {
                    reveal_strlit("");
                    assert(""@ =~= Seq::<char>::empty());
                }
                address
            },
        }
    } else {
        address
    };
    proof {
        reveal_strlit("preview/pre");
    }
    Ok(replace(address.as_str(), "preview/pre", "img"))
}

/// The selector for the images of a nitter page.
pub open spec fn nitter_selector() -> Seq<char> {
    "meta[property=\"og:image\"]"@
}

/// The selector for the single image of a libreddit page.
pub open spec fn single_image_selector() -> Seq<char> {
    ".post_media_image"@
}

/// The selector for the images of a gallery on a libreddit page.
pub open spec fn gallery_selector() -> Seq<char> {
    ".gallery a"@
}

/// The error for a selector that cannot be parsed.
pub open spec fn selector_error() -> FeedErrorView {
    FeedErrorView { kind: ErrorKind::Malformed, message: "Could not parse selector"@ }
}

/// The images that the page at `url` shows, one result for each element
/// that holds one. A nitter page names them in its `og:image` properties;
/// any other page is read as one of libreddit, which links to its single
/// image and then to those of its gallery.
pub open spec fn scraped(url: Seq<char>, html: Seq<char>) -> Result<
    Seq<Result<Seq<char>, FeedErrorView>>,
    FeedErrorView,
> {
    if contains_text(url, "nitter"@) {
        match selected_attributes(html, nitter_selector(), "content"@) {
            None => Err(selector_error()),
            Some(values) => Ok(values.map_values(|value: Option<Seq<char>>| image_of(value))),
        }
    } else {
        match (
            selected_attributes(html, single_image_selector(), "href"@),
            selected_attributes(html, gallery_selector(), "href"@),
        ) {
            (Some(single), Some(gallery)) => Ok(
                (single + gallery).map_values(
                    |value: Option<Seq<char>>| libreddit_image_of(value),
                ),
            ),
            _ => Err(selector_error()),
        }
    }
}

/// The views of links, in the same order.
pub open spec fn link_views(links: Seq<Result<String, FeedError>>) -> Seq<
    Result<Seq<char>, FeedErrorView>,
> {
    links.map_values(|link: Result<String, FeedError>| link_view(link))
}

/// What was scraped, as mathematical values.
pub open spec fn scraped_view(result: Result<Vec<Result<String, FeedError>>, FeedError>) -> Result<
    Seq<Result<Seq<char>, FeedErrorView>>,
    FeedErrorView,
> {
    match result {
        Ok(links) => Ok(link_views(links@)),
        Err(error) => Err(error@),
    }
}

/// The error for a selector that cannot be parsed.
fn selector_failure() -> (error: FeedError)
    ensures
        error@ == selector_error(),
{
    FeedError::new(ErrorKind::Malformed, String::from_str("Could not parse selector"))
}

/// The images that the elements of a nitter page name, given the `content`
/// attribute of each.
pub fn nitter_images(values: Vec<Option<String>>) -> (images: Vec<Result<String, FeedError>>)
    ensures
        link_views(images@) == values@.map_values(
            |value: Option<String>| image_of(value_view(value)),
        ),
{
    let ghost all = values@;
    let mut rest = reversed(values);
    let mut images: Vec<Result<String, FeedError>> = Vec::new();
    while rest.len() > 0
        invariant
            rest@.len() <= all.len(),
            images@.len() == all.len() - rest@.len(),
            rest@ == all.reverse().take(rest@.len() as int),
            forall|i: int|
                0 <= i < images@.len() ==> link_view(#[trigger] images@[i]) == image_of(
                    value_view(all[i]),
                ),
        decreases rest.len(),
    {
        let ghost n = rest@.len() as int;
        let value = rest.pop().unwrap();
        proof {
            assert(all.reverse().take(n)[n - 1] == all[all.len() - n]);
            assert(rest@ =~= all.reverse().take(n - 1));
        }
        images.push(image_from_attribute(value));
    }
    assert(link_views(images@) =~= all.map_values(
        |value: Option<String>| image_of(value_view(value)),
    ));
    images
}

/// The images to which the elements of a libreddit page link, given the
/// `href` attribute of each. They are added to `images`.
fn push_libreddit_images(images: &mut Vec<Result<String, FeedError>>, values: &Vec<Option<String>>)
    ensures
        link_views(final(images)@) == link_views(old(images)@) + values@.map_values(
            |value: Option<String>| libreddit_image_of(value_view(value)),
        ),
{
    let ghost before = link_views(images@);
    let ghost wanted = values@.map_values(
        |value: Option<String>| libreddit_image_of(value_view(value)),
    );
    let mut i: usize = 0;
    assert(link_views(images@) =~= before + wanted.take(0));
    while i < values.len()
        invariant
            0 <= i <= values@.len(),
            wanted == values@.map_values(
                |value: Option<String>| libreddit_image_of(value_view(value)),
            ),
            link_views(images@) == before + wanted.take(i as int),
        decreases values@.len() - i,
    {
        let ghost so_far = images@;
        let image = match &values[i] {
            Some(href) => image_from_libreddit(href.as_str()),
            None => Err(
                FeedError::new(
                    ErrorKind::Malformed,
                    String::from_str("Missing content attribute for og:image property"),
                ),
            ),
        };
        images.push(image);
        proof {
            assert(link_view(image) == wanted[i as int]);
            assert(link_views(images@) =~= link_views(so_far).push(link_view(image)));
            assert(wanted.take(i as int + 1) =~= wanted.take(i as int).push(wanted[i as int]));
            assert(link_views(images@) =~= before + wanted.take(i as int + 1));
        }
        i = i + 1;
    }
    assert(wanted.take(values@.len() as int) =~= wanted);
}

/// Scrapes the images that a page shows from its HTML. The address of
/// the page decides how it is read.
pub fn scrape_images_from_html(url: &str, html: &str) -> (result: Result<
    Vec<Result<String, FeedError>>,
    FeedError,
>)
    ensures
        scraped_view(result) == scraped(url@, html@),
{
    if contains(url, "nitter") {
        match select_attributes(html, "meta[property=\"og:image\"]", "content") {
            None => Err(selector_failure()),
            Some(values) => {
                let images = nitter_images(values);
                proof {
                    let found = selected_attributes(html@, nitter_selector(), "content"@)->Some_0;
                    assert(link_views(images@) =~= found.map_values(
                        |value: Option<Seq<char>>| image_of(value),
                    ));
                }
                Ok(images)
            },
        }
    } else {
        let single = select_attributes(html, ".post_media_image", "href");
        let gallery = select_attributes(html, ".gallery a", "href");
        match (single, gallery) {
            (Some(single), Some(gallery)) => {
                let mut images: Vec<Result<String, FeedError>> = Vec::new();
                push_libreddit_images(&mut images, &single);
                push_libreddit_images(&mut images, &gallery);
                proof {
                    let first = selected_attributes(html@, single_image_selector(), "href"@)->Some_0;
                    let second = selected_attributes(html@, gallery_selector(), "href"@)->Some_0;
                    assert(link_views(images@) =~= (first + second).map_values(
                        |value: Option<Seq<char>>| libreddit_image_of(value),
                    ));
                }
                Ok(images)
            },
            _ => Err(selector_failure()),
        }
    }
}

/// The links of a page without their queries, from what was scraped: all
/// of them in order, or the first error, be it that of an element or that
/// of a link that is no URL.
pub open spec fn page_links(url: Seq<char>, found: Seq<Result<Seq<char>, FeedErrorView>>) -> Result<
    Seq<Seq<char>>,
    FeedErrorView,
>
    decreases found.len(),
{
    if found.len() == 0 {
        Ok(Seq::empty())
    } else {
        match page_links(url, found.drop_last()) {
            Err(error) => Err(error),
            Ok(links) => match found.last() {
                Err(error) => Err(error),
                Ok(link) => match url_without_query(link) {
                    Ok(clean) => Ok(links.push(clean)),
                    Err(cause) => Err(invalid_link(url, cause)),
                },
            },
        }
    }
}

/// The error for a page that is no text.
pub open spec fn not_text(url: Seq<char>) -> FeedErrorView {
    FeedErrorView {
        kind: ErrorKind::Malformed,
        message: "Page at "@ + url + " is not valid utf8"@,
    }
}

/// The images of the page at `url`, given what fetching it gave: the
/// page must be text in UTF-8, and every image that was scraped a URL.
pub open spec fn page_images(url: Seq<char>, fetched: Result<Vec<u8>, FeedError>) -> Result<
    Seq<Seq<char>>,
    FeedErrorView,
> {
    match fetched {
        Err(error) => Err(error@),
        Ok(bytes) => if !valid_utf8(bytes@) {
            Err(not_text(url))
        } else {
            match scraped(url, decode_utf8(bytes@)) {
                Err(error) => Err(error),
                Ok(found) => page_links(url, found),
            }
        },
    }
}

/// Links or an error, as mathematical values.
pub open spec fn links_view(result: Result<Vec<String>, FeedError>) -> Result<
    Seq<Seq<char>>,
    FeedErrorView,
> {
    match result {
        Ok(links) => Ok(links@.map_values(|link: String| link@)),
        Err(error) => Err(error@),
    }
}

/// The error of the first links stays the error of them all.
proof fn lemma_page_links_fail_on(url: Seq<char>, found: Seq<Result<Seq<char>, FeedErrorView>>, n: int)
    requires
        0 <= n <= found.len(),
        page_links(url, found.take(n)) is Err,
    ensures
        page_links(url, found) == page_links(url, found.take(n)),
    decreases found.len() - n,
{
    if n < found.len() {
        assert(found.take(n + 1).drop_last() =~= found.take(n));
        lemma_page_links_fail_on(url, found, n + 1);
    } else {
        assert(found.take(n) =~= found);
    }
}

/// The links of the page at `url` without their queries, from what was
/// scraped.
pub fn links_of_page(url: &str, found: Vec<Result<String, FeedError>>) -> (result: Result<
    Vec<String>,
    FeedError,
>)
    ensures
        links_view(result) == page_links(url@, link_views(found@)),
{
    let ghost all = link_views(found@);
    let ghost given = found@;
    let mut rest = reversed(found);
    let mut links: Vec<String> = Vec::new();
    proof {
        assert(all.take(0) =~= Seq::empty());
        assert(links@.map_values(|link: String| link@) =~= Seq::<Seq<char>>::empty());
    }
    while rest.len() > 0
        invariant
            given == found@,
            all == link_views(given),
            rest@.len() <= given.len(),
            rest@ == given.reverse().take(rest@.len() as int),
            page_links(url@, all.take(given.len() - rest@.len())) == Ok::<
                Seq<Seq<char>>,
                FeedErrorView,
            >(links@.map_values(|link: String| link@)),
        decreases rest.len(),
    {
        let ghost n = rest@.len() as int;
        let ghost k = given.len() - n;
        let ghost done = links@.map_values(|link: String| link@);
        let link = rest.pop().unwrap();
        proof {
            assert(given.reverse().take(n)[n - 1] == given[k]);
            assert(rest@ =~= given.reverse().take(n - 1));
            assert(all.take(k + 1).drop_last() =~= all.take(k));
            assert(all.take(k + 1).last() == link_view(link));
        }
        let clean = match link {
            Err(error) => {
                proof {
                    lemma_page_links_fail_on(url@, all, k + 1);
                }
                return Err(error);
            },
            Ok(link) => match parse_without_query(link.as_str()) {
                Ok(clean) => clean,
                Err(cause) => {
                    proof {
                        lemma_page_links_fail_on(url@, all, k + 1);
                    }
                    return Err(invalid_link_error(url, cause));
                },
            },
        };
        links.push(clean);
        assert(links@.map_values(|link: String| link@) =~= done.push(clean@));
    }
    proof {
        assert(all.take(given.len() as int) =~= all);
    }
    Ok(links)
}

/// The images of the page at `url`, given what fetching it gave.
pub fn images_of_page(url: &str, fetched: Result<Vec<u8>, FeedError>) -> (result: Result<
    Vec<String>,
    FeedError,
>)
    ensures
        links_view(result) == page_images(url@, fetched),
{
    let bytes = match fetched {
        Ok(bytes) => bytes,
        Err(error) => {
            return Err(error);
        },
    };
    let content = match text_of_utf8(bytes) {
        Some(content) => content,
        None => {
            let mut message = String::from_str("Page at ");
            message.append(url);
            message.append(" is not valid utf8");
            return Err(FeedError::new(ErrorKind::Malformed, message));
        },
    };
    match scrape_images_from_html(url, content.as_str()) {
        Err(error) => Err(error),
        Ok(found) => links_of_page(url, found),
    }
}

/// The entry that stands for one image of `entry`: the image is its id and
/// its link, the rest is that of the entry.
pub open spec fn image_entry(entry: EntryView, image: Seq<char>) -> EntryView {
    EntryView {
        title: entry.title,
        link: image,
        id: image,
        updated: entry.updated,
        summary: entry.summary,
    }
}

/// The entries that stand for the images of `entry`, given what looking
/// for them gave: one for each image, none after a failure.
pub open spec fn image_entries(entry: EntryView, images: Result<Seq<Seq<char>>, FeedErrorView>) -> Seq<
    EntryView,
> {
    match images {
        Ok(links) => links.map_values(|image: Seq<char>| image_entry(entry, image)),
        Err(_) => Seq::empty(),
    }
}

/// The entries that stand for the images of `entry`, given what looking
/// for them gave.
pub fn entries_of_images(entry: Entry, images: Result<Vec<String>, FeedError>) -> (entries: Vec<
    Entry,
>)
    ensures
        entry_views(entries@) == image_entries(entry@, links_view(images)),
{
    let mut entries: Vec<Entry> = Vec::new();
    match images {
        Err(_) => {
            assert(entry_views(entries@) =~= Seq::<EntryView>::empty());
        },
        Ok(links) => {
            let ghost wanted = links@.map_values(|link: String| link@).map_values(
                |image: Seq<char>| image_entry(entry@, image),
            );
            let mut i: usize = 0;
            assert(entry_views(entries@) =~= wanted.take(0));
            while i < links.len()
                invariant
                    0 <= i <= links@.len(),
                    wanted == links@.map_values(|link: String| link@).map_values(
                        |image: Seq<char>| image_entry(entry@, image),
                    ),
                    entry_views(entries@) == wanted.take(i as int),
                decreases links@.len() - i,
            {
                let ghost so_far = entries@;
                let image = Entry {
                    id: links[i].clone(),
                    link: links[i].clone(),
                    summary: entry.summary.clone(),
                    title: entry.title.clone(),
                    updated: entry.updated,
                };
                entries.push(image);
                proof {
                    assert(image@ == wanted[i as int]);
                    assert(entry_views(entries@) =~= entry_views(so_far).push(image@));
                    assert(wanted.take(i as int + 1) =~= wanted.take(i as int).push(
                        wanted[i as int],
                    ));
                }
                i = i + 1;
            }
            assert(wanted.take(links@.len() as int) =~= wanted);
        },
    }
    entries
}

/// The entries that stand for the images of all `entries`, given what
/// looking for the images of each gave: those of the first entry, then
/// those of the second, and so on.
pub open spec fn all_image_entries(
    entries: Seq<EntryView>,
    outcomes: Seq<Result<Seq<Seq<char>>, FeedErrorView>>,
) -> Seq<EntryView>
    decreases entries.len(),
{
    if entries.len() == 0 || outcomes.len() != entries.len() {
        Seq::empty()
    } else {
        all_image_entries(entries.drop_last(), outcomes.drop_last()) + image_entries(
            entries.last(),
            outcomes.last(),
        )
    }
}

/// The warning that the images of the entry `id` could not be had.
pub open spec fn image_warning(id: Seq<char>, error: FeedErrorView) -> Seq<char> {
    "Could not extract images from "@ + id + ". Error: "@ + error.message
}

/// The warnings about one entry, given what looking for its images gave:
/// one after a failure, none else.
pub open spec fn image_warnings(entry: EntryView, images: Result<Seq<Seq<char>>, FeedErrorView>) -> Seq<
    Seq<char>,
> {
    match images {
        Ok(_) => Seq::empty(),
        Err(error) => seq![image_warning(entry.id, error)],
    }
}

/// The warnings about all `entries`, given what looking for the images of
/// each gave, in the order of the entries.
pub open spec fn all_image_warnings(
    entries: Seq<EntryView>,
    outcomes: Seq<Result<Seq<Seq<char>>, FeedErrorView>>,
) -> Seq<Seq<char>>
    decreases entries.len(),
{
    if entries.len() == 0 || outcomes.len() != entries.len() {
        Seq::empty()
    } else {
        all_image_warnings(entries.drop_last(), outcomes.drop_last()) + image_warnings(
            entries.last(),
            outcomes.last(),
        )
    }
}

/// `result` is the feed `feed` with the entries that stand for the images
/// of its entries in place of them, and `warnings` tells of each entry
/// whose images could not be had, whatever looking for the images of each
/// entry gave.
pub open spec fn is_image_feed_with_warnings(
    result: FeedView,
    warnings: Seq<Seq<char>>,
    feed: FeedView,
) -> bool {
    &&& result.title == feed.title
    &&& result.link == feed.link
    &&& result.author_name == feed.author_name
    &&& result.id == feed.id
    &&& exists|outcomes: Seq<Result<Seq<Seq<char>>, FeedErrorView>>|
        {
            &&& outcomes.len() == feed.entries.len()
            &&& result.entries == #[trigger] all_image_entries(feed.entries, outcomes)
            &&& warnings == all_image_warnings(feed.entries, outcomes)
        }
}

/// `result` is the feed `feed` with the entries that stand for the images
/// of its entries in place of them, whatever looking for the images of
/// each entry gave.
pub open spec fn is_image_feed(result: FeedView, feed: FeedView) -> bool {
    exists|warnings: Seq<Seq<char>>| #[trigger] is_image_feed_with_warnings(result, warnings, feed)
}

/// The entries that stand for the images of an entry, and the warning
/// where its images could not be had.
pub struct EntryImages {
    pub entries: Vec<Entry>,
    pub warnings: Vec<String>,
}

/// The feed of the images of a feed, and a warning for each entry whose
/// images could not be had.
pub struct ImageFeed {
    pub feed: Feed,
    pub warnings: Vec<String>,
}

/// The warnings about one entry, given what looking for its images gave.
pub fn warnings_of_images(e: &Entry, images: &Result<Vec<String>, FeedError>) -> (warnings: Vec<
    String,
>)
    ensures
        texts(warnings@) == image_warnings(e@, links_view(*images)),
{
    let mut warnings: Vec<String> = Vec::new();
    match images {
        Ok(_) => {
            assert(texts(warnings@) =~= Seq::<Seq<char>>::empty());
        },
        Err(error) => {
            let mut warning = String::from_str("Could not extract images from ");
            warning.append(e.id.as_str());
            warning.append(". Error: ");
            warning.append(error.message.as_str());
            warnings.push(warning);
            assert(texts(warnings@) =~= seq![image_warning(e@.id, error@)]);
        },
    }
    warnings
}

/// The address of a page written in full, given what parsing it as a URL
/// gave; or the error that it is no URL.
pub open spec fn address_of(url: Seq<char>, parsed: Result<Seq<char>, Seq<char>>) -> Result<
    Seq<char>,
    FeedErrorView,
> {
    match parsed {
        Ok(full) => Ok(full),
        Err(cause) => Err(invalid_link(url, cause)),
    }
}

/// The address at which a page is fetched: `url` written in full, if it
/// is a URL.
pub fn page_address(url: &str) -> (address: Result<String, FeedError>)
    ensures
        link_view(address) == address_of(url@, url_parsed(url@)),
{
    match parse_url(url) {
        Ok(full) => Ok(full),
        Err(cause) => Err(invalid_link_error(url, cause)),
    }
}

/// The images that the page at `url` shows. The address must be a URL;
/// the page is then fetched through `client`, and the result is that of
/// [`images_of_page`] for what fetching gave.
pub fn extract_page_images<C: HttpClient>(client: &mut C, url: String) -> (result: Result<
    Vec<String>,
    FeedError,
>)
    ensures
        url_parsed(url@) is Err ==> links_view(result) == Err::<Seq<Seq<char>>, FeedErrorView>(
            invalid_link(url@, url_parsed(url@)->Err_0),
        ),
        url_parsed(url@) is Ok ==> exists|fetched: Result<Vec<u8>, FeedError>|
            links_view(result) == #[trigger] page_images(url_parsed(url@)->Ok_0, fetched),
{
    match page_address(url.as_str()) {
        Err(error) => Err(error),
        Ok(full) => {
            let fetched = client.get_bytes(full.as_str());
            let result = images_of_page(full.as_str(), fetched);
            assert(links_view(result) == page_images(url_parsed(url@)->Ok_0, fetched));
            result
        },
    }
}

/// The entries that stand for the images of one entry, whose id is the
/// address of its page. An entry whose images cannot be had gives none,
/// and a warning.
pub fn extract_entry_images_with_warnings<C: HttpClient>(client: &mut C, e: Entry) -> (found:
    EntryImages)
    ensures
        exists|images: Result<Seq<Seq<char>>, FeedErrorView>|
            {
                &&& entry_views(found.entries@) == #[trigger] image_entries(e@, images)
                &&& texts(found.warnings@) == image_warnings(e@, images)
            },
{
    let images = extract_page_images(client, e.id.clone());
    let warnings = warnings_of_images(&e, &images);
    let entries = entries_of_images(e, images);
    assert(entry_views(entries@) == image_entries(e@, links_view(images)));
    EntryImages { entries, warnings }
}

/// The entries that stand for the images of one entry, whose id is the
/// address of its page. An entry whose images cannot be had gives none.
pub fn extract_entry_images<C: HttpClient>(client: &mut C, e: Entry) -> (entries: Vec<Entry>)
    ensures
        exists|images: Result<Seq<Seq<char>>, FeedErrorView>|
            entry_views(entries@) == #[trigger] image_entries(e@, images),
{
    let found = extract_entry_images_with_warnings(client, e);
    proof {
        let images = choose|images: Result<Seq<Seq<char>>, FeedErrorView>|
            {
                &&& entry_views(found.entries@) == #[trigger] image_entries(e@, images)
                &&& texts(found.warnings@) == image_warnings(e@, images)
            };
        assert(entry_views(found.entries@) == image_entries(e@, images));
    }
    found.entries
}

/// The feed of the images of a feed: the same feed, with the entries that
/// stand for the images of its entries in place of them; and a warning
/// for each entry whose images could not be had.
pub fn extract_feed_images_with_warnings<C: HttpClient>(client: &mut C, feed: Feed) -> (result:
    ImageFeed)
    ensures
        is_image_feed_with_warnings(result.feed@, texts(result.warnings@), feed@),
{
    let ghost given = feed@.entries;
    let mut rest = reversed(feed.entries);
    let mut entries: Vec<Entry> = Vec::new();
    let mut warnings: Vec<String> = Vec::new();
    let ghost mut outcomes: Seq<Result<Seq<Seq<char>>, FeedErrorView>> = Seq::empty();
    proof {
        assert(given.take(0) =~= Seq::<EntryView>::empty());
        assert(entry_views(entries@) =~= Seq::<EntryView>::empty());
        assert(texts(warnings@) =~= Seq::<Seq<char>>::empty());
    }
    while rest.len() > 0
        invariant
            given == entry_views(feed.entries@),
            rest@.len() <= given.len(),
            rest@ == feed.entries@.reverse().take(rest@.len() as int),
            outcomes.len() == given.len() - rest@.len(),
            entry_views(entries@) == all_image_entries(
                given.take(given.len() - rest@.len()),
                outcomes,
            ),
            texts(warnings@) == all_image_warnings(
                given.take(given.len() - rest@.len()),
                outcomes,
            ),
        decreases rest.len(),
    {
        let ghost n = rest@.len() as int;
        let ghost k = given.len() - n;
        let ghost so_far = entries@;
        let ghost warned = warnings@;
        let ghost before = outcomes;
        let entry = rest.pop().unwrap();
        proof {
            assert(feed.entries@.reverse().take(n)[n - 1] == feed.entries@[k]);
            assert(rest@ =~= feed.entries@.reverse().take(n - 1));
            assert(entry@ == given[k]);
        }
        let found = extract_entry_images_with_warnings(client, entry);
        let mut images = found.entries;
        let mut told = found.warnings;
        proof {
            let outcome = choose|images_of: Result<Seq<Seq<char>>, FeedErrorView>|
                {
                    &&& entry_views(images@) == #[trigger] image_entries(entry@, images_of)
                    &&& texts(told@) == image_warnings(entry@, images_of)
                };
            outcomes = outcomes.push(outcome);
            assert(outcomes.drop_last() =~= before);
            assert(given.take(k + 1).drop_last() =~= given.take(k));
            assert(given.take(k + 1).last() == given[k]);
        }
        let ghost added = images@;
        let ghost more = told@;
        entries.append(&mut images);
        warnings.append(&mut told);
        proof {
            assert(entry_views(entries@) =~= entry_views(so_far) + entry_views(added));
            assert(texts(warnings@) =~= texts(warned) + texts(more));
        }
    }
    proof {
        assert(given.take(given.len() as int) =~= given);
    }
    let result = Feed {
        author_name: feed.author_name,
        id: feed.id,
        link: feed.link,
        title: feed.title,
        entries,
    };
    assert(result@.entries == all_image_entries(feed@.entries, outcomes));
    ImageFeed { feed: result, warnings }
}

/// The feed of the images of a feed: the same feed, with the entries that
/// stand for the images of its entries in place of them.
pub fn extract_feed_images<C: HttpClient>(client: &mut C, feed: Feed) -> (result: Feed)
    ensures
        is_image_feed(result@, feed@),
{
    let found = extract_feed_images_with_warnings(client, feed);
    assert(is_image_feed_with_warnings(found.feed@, texts(found.warnings@), feed@));
    found.feed
}

/// Makes of a feed of posts the feed of their images, which it looks up
/// on the pages of the posts.
pub struct FeedTransformer<C: HttpClient> {
    pub http_client: C,
}

impl<C: HttpClient> FeedTransformer<C> {
    /// The images that the page at `url` shows: see
    /// [`extract_page_images`].
    pub fn extract_images_from_page(&mut self, url: String) -> (result: Result<
        Vec<String>,
        FeedError,
    >)
        ensures
            url_parsed(url@) is Err ==> links_view(result) == Err::<Seq<Seq<char>>, FeedErrorView>(
                invalid_link(url@, url_parsed(url@)->Err_0),
            ),
            url_parsed(url@) is Ok ==> exists|fetched: Result<Vec<u8>, FeedError>|
                links_view(result) == #[trigger] page_images(url_parsed(url@)->Ok_0, fetched),
    {
        extract_page_images(&mut self.http_client, url)
    }

    /// The entries that stand for the images of one entry: see
    /// [`extract_entry_images`].
    pub fn extract_images_from_entry(&mut self, e: Entry) -> (entries: Vec<Entry>)
        ensures
            exists|images: Result<Seq<Seq<char>>, FeedErrorView>|
                entry_views(entries@) == #[trigger] image_entries(e@, images),
    {
        extract_entry_images(&mut self.http_client, e)
    }

    /// The feed of the images of a feed, and a warning for each entry
    /// whose images could not be had: see
    /// [`extract_feed_images_with_warnings`].
    pub fn extract_images_from_feed_with_warnings(&mut self, feed: Feed) -> (result: ImageFeed)
        ensures
            is_image_feed_with_warnings(result.feed@, texts(result.warnings@), feed@),
    {
        extract_feed_images_with_warnings(&mut self.http_client, feed)
    }

    /// The feed of the images of a feed: see [`extract_feed_images`].
    pub fn extract_images_from_feed(&mut self, feed: Feed) -> (result: Feed)
        ensures
            is_image_feed(result@, feed@),
    {
        extract_feed_images(&mut self.http_client, feed)
    }
}

} // verus!
