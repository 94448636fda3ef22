//! Categories of sources, and the merged feed of a category.

use crate::category::{
    all_urls, full_urls, invalid_source_message, is_first_failure, is_first_invalid,
    lemma_some_first_invalid, try_all, Category,
};
use crate::error::{with_context, ErrorKind, FeedError};
use crate::caching_http_client::CachingHttpClient;
use crate::feed_transformer::{
    extract_feed_images, extract_feed_images_with_warnings, is_image_feed,
    is_image_feed_with_warnings, ImageFeed,
};
use crate::http_client::HttpClient;
use crate::links::{parse_url, url_parsed};
use crate::model::{
    concat_entries, feed_views, is_stable_newest_first, joined, lemma_concat_two_single,
    lemma_joined_two, lemma_newer_entry_comes_first, lemma_stable_newest_first_is_unique,
    merge_feeds, title_separator, titles_of, total_entries, unknown_author, Feed, FeedView,
};
use crate::sequence::{reversed, texts};
use crate::serialization::FeedDeserializer;
use vstd::hash_map::StringHashMap;
use vstd::prelude::*;
use vstd::string::StringExecFns;

verus! {

/// What is configured: the names of the categories, each with its sources.
pub open spec fn config_view(categories: Seq<(String, Vec<String>)>) -> Seq<
    (Seq<char>, Seq<Seq<char>>),
> {
    categories.map_values(|c: (String, Vec<String>)| (c.0@, texts(c.1@)))
}

/// Every source of every category is a URL.
pub open spec fn all_valid(categories: Seq<(Seq<char>, Seq<Seq<char>>)>) -> bool {
    forall|k: int| 0 <= k < categories.len() ==> all_urls((#[trigger] categories[k]).1)
}

/// The category at `k` has a source that is no URL, and no category before
/// it has one.
pub open spec fn is_first_invalid_category(
    categories: Seq<(Seq<char>, Seq<Seq<char>>)>,
    k: int,
) -> bool {
    &&& 0 <= k < categories.len()
    &&& !all_urls(categories[k].1)
    &&& forall|j: int| 0 <= j < k ==> all_urls((#[trigger] categories[j]).1)
}

/// The sources by category name, each source written in full. Of two
/// categories of the same name the later one counts.
pub open spec fn configured(categories: Seq<(Seq<char>, Seq<Seq<char>>)>) -> Map<
    Seq<char>,
    Seq<Seq<char>>,
>
    decreases categories.len(),
{
    if categories.len() == 0 {
        Map::empty()
    } else {
        configured(categories.drop_last()).insert(
            categories.last().0,
            full_urls(categories.last().1),
        )
    }
}

/// The context given to every error of the configuration.
pub open spec fn config_context() -> Seq<char> {
    "Failed to parse categories due to url conversion issues."@
}

/// The configured categories: their sources by name, each source a URL.
pub struct Categories {
    by_name: StringHashMap<Category>,
}

impl Categories {
    /// The sources by category name.
    pub closed spec fn sources(&self) -> Map<Seq<char>, Seq<Seq<char>>> {
        self.by_name@.map_values(|c: Category| c.urls())
    }

    /// The given categories. Every source must be a URL: the first
    /// category with a source that is none fails the whole construction,
    /// with an error that names the category and the source.
    pub fn from_config(categories: Vec<(String, Vec<String>)>) -> (result: Result<
        Categories,
        FeedError,
    >)
        ensures
            all_valid(config_view(categories@)) ==> {
                &&& result is Ok
                &&& result->Ok_0.sources() == configured(config_view(categories@))
            },
            forall|k: int, i: int|
                #![trigger is_first_invalid_category(config_view(categories@), k), is_first_invalid(config_view(categories@)[k].1, i)]
                is_first_invalid_category(config_view(categories@), k) && is_first_invalid(
                    config_view(categories@)[k].1,
                    i,
                ) ==> {
                    &&& result is Err
                    &&& result->Err_0@.kind == ErrorKind::InvalidConfig
                    &&& result->Err_0@.message == with_context(
                        config_context(),
                        invalid_source_message(
                            config_view(categories@)[k].0,
                            config_view(categories@)[k].1[i],
                        ),
                    )
                },
    {
        let ghost given = config_view(categories@);
        let mut rest = reversed(categories);
        let mut built: Vec<Result<(String, Category), FeedError>> = Vec::new();
        while rest.len() > 0
            invariant
                given == config_view(categories@),
                rest@.len() <= given.len(),
                built@.len() == given.len() - rest@.len(),
                rest@ == categories@.reverse().take(rest@.len() as int),
                forall|k: int|
                    0 <= k < built@.len() ==> {
                        &&& all_urls(given[k].1) ==> {
                            &&& (#[trigger] built@[k]) is Ok
                            &&& built@[k]->Ok_0.0@ == given[k].0
                            &&& built@[k]->Ok_0.1.urls() == full_urls(given[k].1)
                        }
                        &&& forall|i: int| #[trigger]
                            is_first_invalid(given[k].1, i) ==> {
                                &&& built@[k] is Err
                                &&& built@[k]->Err_0@.kind == ErrorKind::InvalidConfig
                                &&& built@[k]->Err_0@.message == invalid_source_message(
                                    given[k].0,
                                    given[k].1[i],
                                )
                            }
                    },
            decreases rest.len(),
        {
            let ghost n = rest@.len() as int;
            let ghost k = given.len() - n;
            let (name, urls) = rest.pop().unwrap();
            proof {
                assert(categories@.reverse().take(n)[n - 1] == categories@[k]);
                assert(rest@ =~= categories@.reverse().take(n - 1));
                assert(given[k] == (name@, texts(urls@)));
            }
            let entry = match Category::new(name.as_str(), urls) {
                Ok(category) => Ok((name, category)),
                Err(failure) => Err(failure),
            };
            built.push(entry);
        }
        match try_all(built) {
            Ok(named) => {
                let mut map: StringHashMap<Category> = StringHashMap::new();
                let mut pairs = reversed(named);
                let ghost total = named@;
                proof {
                    assert forall|k: int| 0 <= k < given.len() implies all_urls(
                        (#[trigger] given[k]).1,
                    ) && total[k].0@ == given[k].0 && total[k].1.urls() == full_urls(
                        given[k].1,
                    ) by {
                        assert(built@[k] == Ok::<(String, Category), FeedError>(total[k]));
                        if !all_urls(given[k].1) {
                            lemma_some_first_invalid(given[k].1);
                        }
                    }
                    assert(given.take(0) =~= Seq::empty());
                    assert(map@.map_values(|c: Category| c.urls()) =~= configured(given.take(0)));
                }
                while pairs.len() > 0
                    invariant
                        total.len() == given.len(),
                        pairs@.len() <= total.len(),
                        pairs@ == total.reverse().take(pairs@.len() as int),
                        forall|k: int|
                            0 <= k < given.len() ==> (#[trigger] total[k]).0@ == given[k].0
                                && total[k].1.urls() == full_urls(given[k].1),
                        map@.map_values(|c: Category| c.urls()) == configured(
                            given.take(total.len() - pairs@.len()),
                        ),
                    decreases pairs.len(),
                {
                    let ghost n = pairs@.len() as int;
                    let ghost k = total.len() - n;
                    let ghost before = map@;
                    let (name, category) = pairs.pop().unwrap();
                    proof {
                        assert(total.reverse().take(n)[n - 1] == total[k]);
                        assert(pairs@ =~= total.reverse().take(n - 1));
                    }
                    map.insert(name, category);
                    proof {
                        assert(given.take(k + 1).drop_last() =~= given.take(k));
                        assert(given.take(k + 1).last() == given[k]);
                        assert(map@.map_values(|c: Category| c.urls()) =~= before.map_values(
                            |c: Category| c.urls(),
                        ).insert(name@, category.urls()));
                    }
                }
                proof {
                    assert(given.take(given.len() as int) =~= given);
                    assert forall|k: int| #[trigger]
                        is_first_invalid_category(given, k) implies false by {}
                }
                Ok(Categories { by_name: map })
            },
            Err(failure) => {
                let result = Err(
                    failure.context("Failed to parse categories due to url conversion issues."),
                );
                proof {
                    let first = choose|k: int| #[trigger]
                        is_first_failure(built@, k) && built@[k] == Err::<
                            (String, Category),
                            FeedError,
                        >(failure);
                    assert(!all_urls(given[first].1));
                    assert(!all_valid(given));
                    lemma_some_first_invalid(given[first].1);
                    assert forall|k: int, i: int|
                        is_first_invalid_category(given, k) && is_first_invalid(
                            given[k].1,
                            i,
                        ) implies k == first by {
                        if k < first {
                            assert(built@[k] is Ok);
                        } else if first < k {
                            assert(all_urls(given[first].1));
                        }
                    }
                }
                result
            },
        }
    }

    /// The sources of a category, or the error that no category of that
    /// name is configured.
    pub fn sources_of(&self, category_name: &str) -> (result: Result<Vec<String>, FeedError>)
        ensures
            match result {
                Ok(urls) => {
                    &&& self.sources().contains_key(category_name@)
                    &&& texts(urls@) == self.sources()[category_name@]
                },
                Err(failure) => {
                    &&& !self.sources().contains_key(category_name@)
                    &&& failure@.kind == ErrorKind::NotFound
                    &&& failure@.message == not_found_message(category_name@)
                },
            },
    {
        match self.by_name.get(category_name) {
            None => {
                let mut message = String::from_str("Failed to find feed category ");
                message.append(category_name);
                Err(FeedError::new(ErrorKind::NotFound, message))
            },
            Some(category) => Ok(category.feed_urls()),
        }
    }
}

/// The merged feeds of configured categories, fetched through a client and
/// read by a deserializer.
pub struct FeedProvider<C: HttpClient, D: FeedDeserializer> {
    categories: Categories,
    http_client: C,
    feed_deserializer: D,
}

impl<C: HttpClient, D: FeedDeserializer> FeedProvider<C, D> {
    /// The sources by category name.
    pub closed spec fn categories(&self) -> Map<Seq<char>, Seq<Seq<char>>> {
        self.categories.sources()
    }

    /// The client that fetches the sources.
    pub closed spec fn client(&self) -> C {
        self.http_client
    }

    /// A provider for the given categories. Every source must be a URL:
    /// the first category with a source that is none fails the whole
    /// construction, with an error that names the category and the source.
    pub fn from_categories_and_http_client_and_feed_deserializer(
        categories: Vec<(String, Vec<String>)>,
        http_client: C,
        feed_deserializer: D,
    ) -> (result: Result<Self, FeedError>)
        ensures
            all_valid(config_view(categories@)) ==> {
                &&& result is Ok
                &&& result->Ok_0.categories() == configured(config_view(categories@))
                &&& result->Ok_0.client() == http_client
            },
            forall|k: int, i: int|
                #![trigger is_first_invalid_category(config_view(categories@), k), is_first_invalid(config_view(categories@)[k].1, i)]
                is_first_invalid_category(config_view(categories@), k) && is_first_invalid(
                    config_view(categories@)[k].1,
                    i,
                ) ==> {
                    &&& result is Err
                    &&& result->Err_0@.kind == ErrorKind::InvalidConfig
                    &&& result->Err_0@.message == with_context(
                        config_context(),
                        invalid_source_message(
                            config_view(categories@)[k].0,
                            config_view(categories@)[k].1[i],
                        ),
                    )
                },
    {
        match Categories::from_config(categories) {
            Ok(categories) => Ok(FeedProvider { categories, http_client, feed_deserializer }),
            Err(failure) => Err(failure),
        }
    }
}

/// The context given to the failure to fetch the source `url`.
pub open spec fn download_context(url: Seq<char>) -> Seq<char> {
    "Failed downloading feed "@ + url + " as part of category"@
}

/// The context given to the failure to read the bytes of the source `url`.
pub open spec fn parse_context(url: Seq<char>) -> Seq<char> {
    "Failed to parse feed "@ + url + " as part of category"@
}

/// `given` is the failure `cause` told with `context` in front.
pub open spec fn is_failure_in_context(
    given: Result<Feed, FeedError>,
    context: Seq<char>,
    cause: FeedError,
) -> bool {
    &&& given is Err
    &&& given->Err_0@.kind == cause@.kind
    &&& given->Err_0@.message == with_context(context, cause@.message)
}

/// What fetching the source `url` comes to, given what the client
/// answered: its bytes, or its failure told as that of this source.
pub fn fetched_bytes(url: &str, outcome: Result<Vec<u8>, FeedError>) -> (result: Result<
    Vec<u8>,
    FeedError,
>)
    ensures
        match outcome {
            Ok(bytes) => result == Ok::<Vec<u8>, FeedError>(bytes),
            Err(cause) => {
                &&& result is Err
                &&& result->Err_0@.kind == cause@.kind
                &&& result->Err_0@.message == with_context(download_context(url@), cause@.message)
            },
        },
{
    match outcome {
        Ok(bytes) => Ok(bytes),
        Err(cause) => {
            let mut context = String::from_str("Failed downloading feed ");
            context.append(url);
            context.append(" as part of category");
            Err(cause.context(context.as_str()))
        },
    }
}

/// What reading the source `url` comes to, given what the deserializer
/// made of its bytes: the feed as it was read, or the failure told as that
/// of this source.
pub fn parsed_feed(url: &str, outcome: Result<Feed, FeedError>) -> (result: Result<Feed, FeedError>)
    ensures
        match outcome {
            Ok(feed) => result == Ok::<Feed, FeedError>(feed),
            Err(cause) => is_failure_in_context(result, parse_context(url@), cause),
        },
{
    match outcome {
        Ok(feed) => Ok(feed),
        Err(cause) => {
            let mut context = String::from_str("Failed to parse feed ");
            context.append(url);
            context.append(" as part of category");
            Err(cause.context(context.as_str()))
        },
    }
}

/// `result` is what one source comes to when the client answered `fetched`
/// and the deserializer, where it was asked, `read`.
pub open spec fn is_source_result(
    result: Result<Feed, FeedError>,
    url: Seq<char>,
    fetched: Result<Vec<u8>, FeedError>,
    read: Result<Feed, FeedError>,
) -> bool {
    match fetched {
        Err(cause) => is_failure_in_context(result, download_context(url), cause),
        Ok(_) => match read {
            Ok(feed) => result == Ok::<Feed, FeedError>(feed),
            Err(cause) => is_failure_in_context(result, parse_context(url), cause),
        },
    }
}

/// Each of the `results` is what the source at its place came to: there
/// are as many results as sources, in the order of the sources.
pub open spec fn came_from_sources(
    results: Seq<Result<Feed, FeedError>>,
    sources: Seq<Seq<char>>,
) -> bool {
    &&& results.len() == sources.len()
    &&& forall|k: int| 0 <= k < results.len() ==> came_from(#[trigger] results[k], sources[k])
}

/// `result` is what the source `url` came to, whatever the client and the
/// deserializer answered.
pub open spec fn came_from(result: Result<Feed, FeedError>, url: Seq<char>) -> bool {
    exists|fetched: Result<Vec<u8>, FeedError>, read: Result<Feed, FeedError>| #[trigger]
        is_source_result(result, url, fetched, read)
}

/// Fetches one source and reads it as a feed. The deserializer is asked
/// only where the client gave bytes.
fn get_feed<C: HttpClient, D: FeedDeserializer>(http_client: &mut C, deserializer: &D, url: &str) -> (result:
    Result<Feed, FeedError>)
    ensures
        came_from(result, url@),
{
    let fetched = http_client.get_bytes(url);
    match fetched_bytes(url, fetched) {
        Err(failure) => {
            let result = Err(failure);
            assert(is_source_result(result, url@, fetched, result));
            result
        },
        Ok(bytes) => {
            let read = deserializer.parse_feed_from_bytes(bytes.as_slice());
            let result = parsed_feed(url, read);
            assert(is_source_result(result, url@, fetched, read));
            result
        },
    }
}

/// The feeds of the results that hold one, in order.
pub open spec fn successes(results: Seq<Result<Feed, FeedError>>) -> Seq<Feed>
    decreases results.len(),
{
    if results.len() == 0 {
        Seq::empty()
    } else {
        match results.last() {
            Ok(feed) => successes(results.drop_last()).push(feed),
            Err(_) => successes(results.drop_last()),
        }
    }
}

/// The failures among the results, in order.
pub open spec fn failures(results: Seq<Result<Feed, FeedError>>) -> Seq<FeedError>
    decreases results.len(),
{
    if results.len() == 0 {
        Seq::empty()
    } else {
        match results.last() {
            Ok(_) => failures(results.drop_last()),
            Err(failure) => failures(results.drop_last()).push(failure),
        }
    }
}

/// The warning about a source of the category `name` that failed.
pub open spec fn warning_for(name: Seq<char>, failure: FeedError) -> Seq<char> {
    "Failed to fetch feed as part of category "@ + name
        + ". It will not be part of the next category feed.\n"@ + failure@.message
}

/// `warnings` holds one warning for each source of the category `name`
/// that failed, in the order of the sources.
pub open spec fn are_warnings_of(
    warnings: Seq<String>,
    name: Seq<char>,
    results: Seq<Result<Feed, FeedError>>,
) -> bool {
    &&& warnings.len() == failures(results).len()
    &&& forall|i: int|
        0 <= i < warnings.len() ==> (#[trigger] warnings[i])@ == warning_for(
            name,
            failures(results)[i],
        )
}

/// What is left of the sources of a category: the feeds that could be had,
/// and a warning for each source that failed.
pub struct Survivors {
    pub feeds: Vec<Feed>,
    pub warnings: Vec<String>,
}

/// Every result is one of the feeds or one of the failures.
pub proof fn lemma_successes_and_failures(results: Seq<Result<Feed, FeedError>>)
    ensures
        successes(results).len() + failures(results).len() == results.len(),
    decreases results.len(),
{
    if results.len() > 0 {
        lemma_successes_and_failures(results.drop_last());
    }
}

/// Where every source failed nothing is left, and where none failed every
/// feed is.
pub proof fn lemma_successes_at_the_ends(results: Seq<Result<Feed, FeedError>>)
    ensures
        (forall|i: int| 0 <= i < results.len() ==> (#[trigger] results[i]) is Err) ==> successes(
            results,
        ).len() == 0,
        (forall|i: int| 0 <= i < results.len() ==> (#[trigger] results[i]) is Ok) ==> successes(
            results,
        ).len() == results.len(),
    decreases results.len(),
{
    if results.len() > 0 {
        lemma_successes_at_the_ends(results.drop_last());
        assert forall|i: int| 0 <= i < results.len() - 1 implies results.drop_last()[i]
            == results[i] by {}
        if forall|i: int| 0 <= i < results.len() ==> (#[trigger] results[i]) is Err {
            assert(results.last() is Err);
            assert forall|i: int| 0 <= i < results.drop_last().len() implies (
            #[trigger] results.drop_last()[i]) is Err by {
                assert(results[i] is Err);
            }
        }
        if forall|i: int| 0 <= i < results.len() ==> (#[trigger] results[i]) is Ok {
            assert(results.last() is Ok);
            assert forall|i: int| 0 <= i < results.drop_last().len() implies (
            #[trigger] results.drop_last()[i]) is Ok by {
                assert(results[i] is Ok);
            }
        }
    }
}

/// Drops the sources that failed: what is left are the feeds of those that
/// did not, in their order, and one warning for each that did, which names
/// the category and tells the failure.
pub fn discard_err_feeds(results: Vec<Result<Feed, FeedError>>, category_name: &str) -> (left:
    Survivors)
    ensures
        left.feeds@ == successes(results@),
        are_warnings_of(left.warnings@, category_name@, results@),
{
    let ghost all = results@;
    let mut rest = reversed(results);
    let mut feeds: Vec<Feed> = Vec::new();
    let mut warnings: Vec<String> = Vec::new();
    proof {
        assert(all.take(0) =~= Seq::empty());
    }
    while rest.len() > 0
        invariant
            rest@.len() <= all.len(),
            rest@ == all.reverse().take(rest@.len() as int),
            feeds@ == successes(all.take(all.len() - rest@.len())),
            warnings@.len() == failures(all.take(all.len() - rest@.len())).len(),
            forall|i: int|
                0 <= i < warnings@.len() ==> (#[trigger] warnings@[i])@ == warning_for(
                    category_name@,
                    failures(all.take(all.len() - rest@.len()))[i],
                ),
        decreases rest.len(),
    {
        let ghost n = rest@.len() as int;
        let ghost k = all.len() - n;
        let result = rest.pop().unwrap();
        proof {
            assert(all.reverse().take(n)[n - 1] == all[k]);
            assert(rest@ =~= all.reverse().take(n - 1));
            assert(all.take(k + 1).drop_last() =~= all.take(k));
            assert(all.take(k + 1).last() == all[k]);
        }
        match result {
            Ok(feed) => {
                feeds.push(feed);
            },
            Err(failure) => {
                let mut warning = String::from_str("Failed to fetch feed as part of category ");
                warning.append(category_name);
                warning.append(". It will not be part of the next category feed.\n");
                warning.append(failure.message.as_str());
                warnings.push(warning);
            },
        }
    }
    proof {
        assert(all.take(all.len() as int) =~= all);
    }
    Survivors { feeds, warnings }
}

/// The address of the merged feed of the category `name`, as it is put
/// together from the name.
pub open spec fn category_address(name: Seq<char>) -> Seq<char> {
    "https://feedragon.privacy.qvarford.net/feeds/"@ + name + "/atom.xml"@
}

/// The link of the merged feed of the category `name`: its address as a
/// URL written in full, or as it is where it is no URL.
pub open spec fn category_link(name: Seq<char>) -> Seq<char> {
    match url_parsed(category_address(name)) {
        Ok(full) => full,
        Err(_) => category_address(name),
    }
}

/// The message of the error for a category that is not configured.
pub open spec fn not_found_message(name: Seq<char>) -> Seq<char> {
    "Failed to find feed category "@ + name
}

/// `feed` is the merged feed of the category `name` whose sources gave the
/// feeds `sources`: it is named after the category and not after a source,
/// its title joins the titles of the sources, and its entries are theirs,
/// newest first, entries of the same instant in the order of the sources.
pub open spec fn is_category_feed(feed: FeedView, name: Seq<char>, sources: Seq<FeedView>) -> bool {
    &&& feed.id == name
    &&& feed.link == category_link(name)
    &&& feed.author_name == unknown_author()
    &&& feed.title == joined(titles_of(sources), title_separator())
    &&& is_stable_newest_first(feed.entries, concat_entries(sources))
    &&& feed.entries.len() == total_entries(sources)
}

/// The merged feed of a category of which no source gave a feed has no
/// entries and an empty title.
pub proof fn lemma_empty_category_feed(feed: FeedView, name: Seq<char>)
    requires
        is_category_feed(feed, name, Seq::empty()),
    ensures
        feed.entries.len() == 0,
        feed.title == Seq::<char>::empty(),
{
}

/// The merged feed of a category is determined by what its sources came
/// to: the same results, in the same order, give the same feed.
pub proof fn lemma_category_feed_is_unique(
    a: FeedView,
    b: FeedView,
    name: Seq<char>,
    sources: Seq<FeedView>,
)
    requires
        is_category_feed(a, name, sources),
        is_category_feed(b, name, sources),
    ensures
        a == b,
{
    lemma_stable_newest_first_is_unique(a.entries, b.entries, concat_entries(sources));
}

/// Of a category with two sources that give a feed of one entry each, the
/// second entry newer than the first, the merged feed holds the newer
/// entry first, and its title names the sources in their order.
pub proof fn lemma_two_sources_newest_first(
    feed: FeedView,
    name: Seq<char>,
    first: FeedView,
    second: FeedView,
)
    requires
        is_category_feed(feed, name, seq![first, second]),
        first.entries.len() == 1,
        second.entries.len() == 1,
        first.entries[0].updated.before(second.entries[0].updated),
    ensures
        feed.entries == seq![second.entries[0], first.entries[0]],
        feed.title == first.title + title_separator() + second.title,
{
    lemma_concat_two_single(first, second);
    lemma_newer_entry_comes_first(feed.entries, first.entries[0], second.entries[0]);
    assert(titles_of(seq![first, second]) =~= seq![first.title, second.title]);
    lemma_joined_two(first.title, second.title, title_separator());
}

/// The failure of a source names the source: it is a failure to fetch or
/// to read told with the address of the source in front. So the warning
/// about a source that is left out names the category and the source.
pub proof fn lemma_failure_names_its_source(result: Result<Feed, FeedError>, url: Seq<char>)
    requires
        came_from(result, url),
        result is Err,
    ensures
        exists|cause: Seq<char>|
            {
                ||| result->Err_0@.message == #[trigger] with_context(download_context(url), cause)
                ||| result->Err_0@.message == with_context(parse_context(url), cause)
            },
{
    let (fetched, read) = choose|
        fetched: Result<Vec<u8>, FeedError>,
        read: Result<Feed, FeedError>,
    | #[trigger] is_source_result(result, url, fetched, read);
    match fetched {
        Err(cause) => {
            assert(result->Err_0@.message == with_context(
                download_context(url),
                cause@.message,
            ));
        },
        Ok(_) => {
            let cause = read->Err_0;
            assert(result->Err_0@.message == with_context(parse_context(url), cause@.message));
            assert(with_context(download_context(url), cause@.message) == with_context(
                download_context(url),
                cause@.message,
            ));
        },
    }
}

/// The link of the merged feed of a category.
fn link_of_category(category_name: &str) -> (link: String)
    ensures
        link@ == category_link(category_name@),
{
    let mut address = String::from_str("https://feedragon.privacy.qvarford.net/feeds/");
    address.append(category_name);
    address.append("/atom.xml");
    match parse_url(address.as_str()) {
        Ok(full) => full,
        Err(_) => address,
    }
}

/// The merged feed of a category, and a warning for each of its sources
/// that is not part of it.
pub struct CategoryFeed {
    pub feed: Feed,
    pub warnings: Vec<String>,
}

/// The merged feed of a category from what its sources came to, one result
/// for each source: the sources that failed are left out, whatever their
/// number, with a warning each, and the feeds of the others are merged.
pub fn category_feed_with_warnings(
    category_name: &str,
    results: Vec<Result<Feed, FeedError>>,
) -> (merged: CategoryFeed)
    ensures
        is_category_feed(merged.feed@, category_name@, feed_views(successes(results@))),
        are_warnings_of(merged.warnings@, category_name@, results@),
{
    let left = discard_err_feeds(results, category_name);
    let feed = merge_feeds(
        String::from_str(category_name),
        link_of_category(category_name),
        left.feeds,
    );
    CategoryFeed { feed, warnings: left.warnings }
}

/// The merged feed of a category from what its sources came to, one result
/// for each source: the sources that failed are left out, whatever their
/// number, and the feeds of the others are merged.
pub fn category_feed(category_name: &str, results: Vec<Result<Feed, FeedError>>) -> (feed: Feed)
    ensures
        is_category_feed(feed@, category_name@, feed_views(successes(results@))),
{
    category_feed_with_warnings(category_name, results).feed
}

impl<C: HttpClient, D: FeedDeserializer> FeedProvider<C, D> {
    /// The sources of a category, or the error that no category of that
    /// name is configured.
    pub fn sources_of(&self, category_name: &str) -> (result: Result<Vec<String>, FeedError>)
        ensures
            match result {
                Ok(urls) => {
                    &&& self.categories().contains_key(category_name@)
                    &&& texts(urls@) == self.categories()[category_name@]
                },
                Err(failure) => {
                    &&& !self.categories().contains_key(category_name@)
                    &&& failure@.kind == ErrorKind::NotFound
                    &&& failure@.message == not_found_message(category_name@)
                },
            },
    {
        self.categories.sources_of(category_name)
    }

    /// Fetches and reads every source, one after the other: one result
    /// for each source, in the order of the sources, each of them what its
    /// own source came to.
    fn category_feeds(&mut self, urls: &Vec<String>) -> (results: Vec<Result<Feed, FeedError>>)
        ensures
            results@.len() == urls@.len(),
            forall|k: int| 0 <= k < urls@.len() ==> came_from(#[trigger] results@[k], urls@[k]@),
            final(self).categories() == old(self).categories(),
    {
        let mut results: Vec<Result<Feed, FeedError>> = Vec::new();
        let mut i: usize = 0;
        while i < urls.len()
            invariant
                0 <= i <= urls@.len(),
                results@.len() == i,
                forall|k: int| 0 <= k < i ==> came_from(#[trigger] results@[k], urls@[k]@),
                self.categories() == old(self).categories(),
            decreases urls@.len() - i,
        {
            let result = get_feed(&mut self.http_client, &self.feed_deserializer, urls[i].as_str());
            results.push(result);
            i = i + 1;
        }
        results
    }

    /// The feed of the images of a feed, looked up through the client of
    /// this provider, and a warning for each entry whose images could not
    /// be had.
    pub fn extract_images_from_feed_with_warnings(&mut self, feed: Feed) -> (result: ImageFeed)
        ensures
            final(self).categories() == old(self).categories(),
            is_image_feed_with_warnings(result.feed@, texts(result.warnings@), feed@),
    {
        extract_feed_images_with_warnings(&mut self.http_client, feed)
    }

    /// The feed of the images of a feed, looked up through the client of
    /// this provider.
    pub fn extract_images_from_feed(&mut self, feed: Feed) -> (result: Feed)
        ensures
            final(self).categories() == old(self).categories(),
            is_image_feed(result@, feed@),
    {
        extract_feed_images(&mut self.http_client, feed)
    }

    /// The merged feed of a category, with a warning for each source that
    /// is not part of it. A name that is not configured is the only error.
    /// Every source of the category is fetched and read; feed and warnings
    /// are those of [`category_feed_with_warnings`] for what the sources
    /// came to, so that a source that fails is left out and fails nothing.
    pub fn feed_by_category_with_warnings(&mut self, category_name: &str) -> (result: Result<
        CategoryFeed,
        FeedError,
    >)
        ensures
            final(self).categories() == old(self).categories(),
            match result {
                Ok(merged) => {
                    &&& old(self).categories().contains_key(category_name@)
                    &&& exists|results: Seq<Result<Feed, FeedError>>|
                        {
                            &&& came_from_sources(
                                results,
                                old(self).categories()[category_name@],
                            )
                            &&& #[trigger] is_category_feed(
                                merged.feed@,
                                category_name@,
                                feed_views(successes(results)),
                            )
                            &&& are_warnings_of(merged.warnings@, category_name@, results)
                        }
                },
                Err(failure) => {
                    &&& !old(self).categories().contains_key(category_name@)
                    &&& failure@.kind == ErrorKind::NotFound
                    &&& failure@.message == not_found_message(category_name@)
                    &&& final(self).client() == old(self).client()
                },
            },
    {
        let ghost known = self.categories();
        match self.sources_of(category_name) {
            Err(failure) => {
                let result = Err(failure);
                assert(!known.contains_key(category_name@));
                assert(result->Err_0@.message == not_found_message(category_name@));
                result
            },
            Ok(urls) => {
                assert(texts(urls@).len() == urls@.len());
                let results = self.category_feeds(&urls);
                let ghost came = results@;
                let merged = category_feed_with_warnings(category_name, results);
                proof {
                    assert(known.contains_key(category_name@));
                    assert(came_from_sources(came, known[category_name@])) by {
                        assert forall|k: int| 0 <= k < came.len() implies came_from(
                            #[trigger] came[k],
                            known[category_name@][k],
                        ) by {
                            assert(texts(urls@)[k] == urls@[k]@);
                        }
                    }
                    assert(is_category_feed(
                        merged.feed@,
                        category_name@,
                        feed_views(successes(came)),
                    ));
                    assert(are_warnings_of(merged.warnings@, category_name@, came));
                }
                let result = Ok(merged);
                assert(result is Ok && result->Ok_0 == merged);
                result
            },
        }
    }

    /// The merged feed of a category. A name that is not configured is
    /// the only error. Every source of the category is fetched and read;
    /// the feed is that of [`category_feed`] for what the sources came to,
    /// so that a source that fails is left out and fails nothing.
    pub fn feed_by_category(&mut self, category_name: &str) -> (result: Result<Feed, FeedError>)
        ensures
            final(self).categories() == old(self).categories(),
            match result {
                Ok(feed) => {
                    &&& old(self).categories().contains_key(category_name@)
                    &&& exists|results: Seq<Result<Feed, FeedError>>|
                        {
                            &&& came_from_sources(
                                results,
                                old(self).categories()[category_name@],
                            )
                            &&& #[trigger] is_category_feed(
                                feed@,
                                category_name@,
                                feed_views(successes(results)),
                            )
                        }
                },
                Err(failure) => {
                    &&& !old(self).categories().contains_key(category_name@)
                    &&& failure@.kind == ErrorKind::NotFound
                    &&& failure@.message == not_found_message(category_name@)
                    &&& final(self).client() == old(self).client()
                },
            },
    {
        let ghost known = self.categories();
        match self.feed_by_category_with_warnings(category_name) {
            Err(failure) => {
                let result = Err(failure);
                assert(!known.contains_key(category_name@));
                assert(result->Err_0@.message == not_found_message(category_name@));
                result
            },
            Ok(merged) => {
                proof {
                    let came = choose|results: Seq<Result<Feed, FeedError>>|
                        {
                            &&& came_from_sources(results, known[category_name@])
                            &&& #[trigger] is_category_feed(
                                merged.feed@,
                                category_name@,
                                feed_views(successes(results)),
                            )
                            &&& are_warnings_of(merged.warnings@, category_name@, results)
                        };
                    assert(is_category_feed(
                        merged.feed@,
                        category_name@,
                        feed_views(successes(came)),
                    ));
                }
                let result = Ok(merged.feed);
                assert(result is Ok && result->Ok_0@ == merged.feed@);
                result
            },
        }
    }
}

impl<C: HttpClient, D: FeedDeserializer> FeedProvider<CachingHttpClient<C>, D> {
    /// Takes from the caching client the warnings that wait there: one for
    /// each time old bytes were the answer because a fetch failed.
    pub fn take_stale_warnings(&mut self) -> (taken: Vec<String>)
        ensures
            texts(taken@) == old(self).client().warnings(),
            final(self).client().warnings() == Seq::<Seq<char>>::empty(),
            final(self).client().cached() == old(self).client().cached(),
            final(self).client().ttl() == old(self).client().ttl(),
            final(self).categories() == old(self).categories(),
    {
        self.http_client.take_warnings()
    }
}

} // verus!
