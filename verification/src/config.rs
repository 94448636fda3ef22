//! What is configured: the categories and their sources.

use crate::caching_http_client::CachingHttpClient;
use crate::cache::CacheEntry;
use crate::error::{with_context, ErrorKind, FeedError};
use crate::category::{invalid_source_message, is_first_invalid};
use crate::feed_provider::{
    all_valid, config_context, config_view, configured, is_first_invalid_category, FeedProvider,
};
use crate::http_client::HttpClient;
use crate::sequence::texts;
use crate::serialization::FeedDeserializer;
use crate::time::TimeSpan;
use vstd::prelude::*;

verus! {

/// The configured categories: each name with its sources, as they were
/// written.
#[derive(Debug, PartialEq, Clone, Default)]
pub struct Config {
    pub categories: Vec<(String, Vec<String>)>,
}

/// The sources of the first category, then those of the second, and so on.
pub open spec fn all_sources(categories: Seq<(String, Vec<String>)>) -> Seq<Seq<char>>
    decreases categories.len(),
{
    if categories.len() == 0 {
        Seq::empty()
    } else {
        all_sources(categories.drop_last()) + texts(categories.last().1@)
    }
}

impl Config {
    /// Every source of every category, in the order of the configuration.
    pub fn feed_urls(&self) -> (urls: Vec<String>)
        ensures
            texts(urls@) == all_sources(self.categories@),
    {
        let mut urls: Vec<String> = Vec::new();
        let mut i: usize = 0;
        proof {
            assert(self.categories@.take(0) =~= Seq::<(String, Vec<String>)>::empty());
            assert(texts(urls@) =~= Seq::<Seq<char>>::empty());
        }
        while i < self.categories.len()
            invariant
                0 <= i <= self.categories@.len(),
                texts(urls@) == all_sources(self.categories@.take(i as int)),
            decreases self.categories@.len() - i,
        {
            let sources = &self.categories[i].1;
            let ghost before = texts(urls@);
            let mut j: usize = 0;
            while j < sources.len()
                invariant
                    0 <= j <= sources@.len(),
                    texts(urls@) == before + texts(sources@).take(j as int),
                decreases sources@.len() - j,
            {
                let ghost so_far = urls@;
                let source = sources[j].clone();
                urls.push(source);
                proof {
                    assert(texts(urls@) =~= texts(so_far).push(source@));
                    assert(texts(sources@).take(j as int + 1) =~= texts(sources@).take(
                        j as int,
                    ).push(sources@[j as int]@));
                    assert(texts(urls@) =~= before + texts(sources@).take(j as int + 1));
                }
                j = j + 1;
            }
            proof {
                assert(texts(sources@).take(sources@.len() as int) =~= texts(sources@));
                assert(self.categories@.take(i as int + 1).drop_last() =~= self.categories@.take(
                    i as int,
                ));
                assert(self.categories@.take(i as int + 1).last() == self.categories@[i as int]);
            }
            i = i + 1;
        }
        proof {
            assert(self.categories@.take(self.categories@.len() as int) =~= self.categories@);
        }
        urls
    }
}

/// The span of time for which a provider made from a configuration keeps
/// what it fetched.
pub open spec fn default_ttl() -> TimeSpan {
    TimeSpan { seconds: 3600, nanos: 0 }
}

/// A provider for the configured categories that fetches through
/// `http_client` and keeps what it fetched for an hour. A source that is no
/// URL fails the construction, as it fails
/// [`FeedProvider::from_categories_and_http_client_and_feed_deserializer`].
pub fn caching_feed_provider<C: HttpClient, D: FeedDeserializer>(
    config: Config,
    http_client: C,
    feed_deserializer: D,
) -> (result: Result<FeedProvider<CachingHttpClient<C>, D>, FeedError>)
    ensures
        all_valid(config_view(config.categories@)) ==> {
            &&& result is Ok
            &&& result->Ok_0.categories() == configured(config_view(config.categories@))
            &&& result->Ok_0.client().ttl() == default_ttl()
            &&& result->Ok_0.client().cached() == Map::<Seq<char>, CacheEntry<Vec<u8>>>::empty()
        },
        forall|k: int, i: int|
            #![trigger is_first_invalid_category(config_view(config.categories@), k), is_first_invalid(config_view(config.categories@)[k].1, i)]
            is_first_invalid_category(config_view(config.categories@), k) && is_first_invalid(
                config_view(config.categories@)[k].1,
                i,
            ) ==> {
                &&& result is Err
                &&& result->Err_0@.kind == ErrorKind::InvalidConfig
                &&& result->Err_0@.message == with_context(
                    config_context(),
                    invalid_source_message(
                        config_view(config.categories@)[k].0,
                        config_view(config.categories@)[k].1[i],
                    ),
                )
            },
{
    let feed_urls = config.feed_urls();
    let caching = CachingHttpClient::new(http_client, TimeSpan::hours(1), feed_urls);
    FeedProvider::from_categories_and_http_client_and_feed_deserializer(
        config.categories,
        caching,
        feed_deserializer,
    )
}

} // verus!
