//! A category: a name for a list of sources, each of which is a URL.

use crate::error::{with_context, ErrorKind, FeedError};
use crate::links::{checked_url, url_parsed, validated, validation_view};
use crate::sequence::{reversed, texts};
use vstd::prelude::*;
use vstd::string::StringExecFns;

verus! {

/// The item at `i` is a failure and none before it is.
pub open spec fn is_first_failure<T, E>(items: Seq<Result<T, E>>, i: int) -> bool {
    &&& 0 <= i < items.len()
    &&& items[i] is Err
    &&& forall|j: int| 0 <= j < i ==> (#[trigger] items[j]) is Ok
}

/// All the values, in order, where every item holds one; else the first
/// failure.
pub fn try_all<T, E>(items: Vec<Result<T, E>>) -> (result: Result<Vec<T>, E>)
    ensures
        match result {
            Ok(values) => {
                &&& values@.len() == items@.len()
                &&& forall|i: int|
                    0 <= i < items@.len() ==> (#[trigger] items@[i]) == Ok::<T, E>(values@[i])
            },
            Err(failure) => exists|i: int|
                #[trigger] is_first_failure(items@, i) && items@[i] == Err::<T, E>(failure),
        },
{
    let ghost all = items@;
    let mut rest = reversed(items);
    let mut values: Vec<T> = Vec::new();
    while rest.len() > 0
        invariant
            all == items@,
            rest@.len() <= all.len(),
            values@.len() == all.len() - rest@.len(),
            rest@ == all.reverse().take(rest@.len() as int),
            forall|i: int| 0 <= i < values@.len() ==> (#[trigger] all[i]) == Ok::<T, E>(values@[i]),
        decreases rest.len(),
    {
        let ghost n = rest@.len() as int;
        let ghost k = all.len() - n;
        let item = rest.pop().unwrap();
        assert(item == all[k]) by {
            assert(all.reverse().take(n)[n - 1] == all.reverse()[n - 1]);
        }
        assert(rest@ =~= all.reverse().take(n - 1));
        match item {
            Ok(value) => {
                values.push(value);
            },
            Err(failure) => {
                assert(all[k] == Err::<T, E>(failure));
                assert(is_first_failure(all, k)) by {
                    assert forall|j: int| 0 <= j < k implies (#[trigger] all[j]) is Ok by {
                        assert(all[j] == Ok::<T, E>(values@[j]));
                    }
                }
                return Err(failure);
            },
        }
    }
    Ok(values)
}

/// Every text of the list is a URL.
pub open spec fn all_urls(urls: Seq<Seq<char>>) -> bool {
    forall|i: int| 0 <= i < urls.len() ==> url_parsed(#[trigger] urls[i]) is Ok
}

/// The text at `i` is no URL, and every text before it is one.
pub open spec fn is_first_invalid(urls: Seq<Seq<char>>, i: int) -> bool {
    &&& 0 <= i < urls.len()
    &&& url_parsed(urls[i]) is Err
    &&& forall|j: int| 0 <= j < i ==> url_parsed(#[trigger] urls[j]) is Ok
}

/// Each URL of the list written in full.
pub open spec fn full_urls(urls: Seq<Seq<char>>) -> Seq<Seq<char>> {
    urls.map_values(|url: Seq<char>| url_parsed(url)->Ok_0)
}

/// The context given to the error of a source of the category `name`.
pub open spec fn category_context(name: Seq<char>) -> Seq<char> {
    "Failed to parse url in category "@ + name
}

/// The message of the error for the category `name` whose source `url` is
/// no URL.
pub open spec fn invalid_source_message(name: Seq<char>, url: Seq<char>) -> Seq<char> {
    with_context(category_context(name), validated(url, url_parsed(url))->Err_0.1)
}

/// A named set of sources, each of them a URL written in full.
pub struct Category {
    feed_urls: Vec<String>,
}

impl Category {
    /// The sources, in the order in which they were configured.
    pub closed spec fn urls(&self) -> Seq<Seq<char>> {
        texts(self.feed_urls@)
    }

    /// The sources, in the order in which they were configured.
    pub fn feed_urls(&self) -> (urls: Vec<String>)
        ensures
            texts(urls@) == self.urls(),
    {
        let mut urls: Vec<String> = Vec::new();
        let mut i: usize = 0;
        while i < self.feed_urls.len()
            invariant
                0 <= i <= self.feed_urls@.len(),
                urls@ == self.feed_urls@.take(i as int),
            decreases self.feed_urls@.len() - i,
        {
            urls.push(self.feed_urls[i].clone());
            assert(urls@ =~= self.feed_urls@.take(i + 1));
            i = i + 1;
        }
        assert(urls@ =~= self.feed_urls@);
        urls
    }

    /// The category `name` with the given sources, if each of them is a
    /// URL; else the error for the first that is none, which names it and
    /// the category.
    pub fn new(name: &str, urls: Vec<String>) -> (result: Result<Category, FeedError>)
        ensures
            all_urls(texts(urls@)) ==> result is Ok && result->Ok_0.urls() == full_urls(
                texts(urls@),
            ),
            forall|i: int| #[trigger]
                is_first_invalid(texts(urls@), i) ==> {
                    &&& result is Err
                    &&& result->Err_0@.kind == ErrorKind::InvalidConfig
                    &&& result->Err_0@.message == invalid_source_message(name@, urls@[i]@)
                },
    {
        let ghost given = texts(urls@);
        let mut checked: Vec<Result<String, FeedError>> = Vec::new();
        let mut i: usize = 0;
        while i < urls.len()
            invariant
                0 <= i <= urls.len(),
                given == texts(urls@),
                checked@.len() == i,
                forall|k: int|
                    0 <= k < i ==> validation_view(#[trigger] checked@[k])
                        == validated(given[k], url_parsed(given[k])),
            decreases urls.len() - i,
        {
            checked.push(checked_url(urls[i].as_str()));
            i = i + 1;
        }
        match try_all(checked) {
            Ok(feed_urls) => {
                proof {
                    assert forall|k: int| 0 <= k < given.len() implies url_parsed(#[trigger] given[k]) is Ok
                        && feed_urls@[k]@ == url_parsed(given[k])->Ok_0 by {
                        assert(checked@[k] == Ok::<String, FeedError>(feed_urls@[k]));
                    }
                    assert forall|k: int| #[trigger] is_first_invalid(given, k) implies false by {}
                    assert(texts(feed_urls@) =~= full_urls(given));
                }
                Ok(Category { feed_urls })
            },
            Err(failure) => {
                let mut context = String::from_str("Failed to parse url in category ");
                context.append(name);
                let result = Err(failure.context(context.as_str()));
                proof {
                    let first = choose|k: int| #[trigger]
                        is_first_failure(checked@, k) && checked@[k] == Err::<String, FeedError>(
                            failure,
                        );
                    assert(url_parsed(given[first]) is Err);
                    assert(!all_urls(given));
                    assert forall|k: int| #[trigger] is_first_invalid(given, k) implies k
                        == first by {
                        if k < first {
                            assert(checked@[k] is Ok);
                        } else if first < k {
                            assert(url_parsed(given[first]) is Ok);
                        }
                    }
                }
                result
            },
        }
    }
}

/// A list that does not hold URLs only has a first text that is none.
pub proof fn lemma_some_first_invalid(urls: Seq<Seq<char>>)
    requires
        !all_urls(urls),
    ensures
        exists|i: int| is_first_invalid(urls, i),
    decreases urls.len(),
{
    if urls.len() > 0 {
        if all_urls(urls.drop_last()) {
            assert forall|j: int| 0 <= j < urls.len() - 1 implies url_parsed(
                #[trigger] urls[j],
            ) is Ok by {
                assert(urls.drop_last()[j] == urls[j]);
            }
            assert(is_first_invalid(urls, urls.len() - 1));
        } else {
            lemma_some_first_invalid(urls.drop_last());
            let i = choose|i: int| is_first_invalid(urls.drop_last(), i);
            assert(urls.drop_last()[i] == urls[i]);
            assert forall|j: int| 0 <= j < i implies url_parsed(#[trigger] urls[j]) is Ok by {
                assert(urls.drop_last()[j] == urls[j]);
            }
            assert(is_first_invalid(urls, i));
        }
    }
}

} // verus!
