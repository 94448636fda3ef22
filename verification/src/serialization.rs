//! Turning the bytes of a source into a feed: the capability, and the way
//! to try several formats in turn.

use crate::error::{with_context, ErrorKind, FeedError, FeedErrorView};
use crate::model::{Feed, FeedView};
use vstd::prelude::*;
use vstd::string::StringExecFns;

verus! {

/// Something that reads a feed from bytes, or says why they are none.
pub trait FeedDeserializer: Send + Sync {
    fn parse_feed_from_bytes(&self, bytes: &[u8]) -> Result<Feed, FeedError>;
}

/// Something that reads the XML of a document into its elements, or says
/// why it cannot.
pub trait DocumentReader<T>: Send + Sync {
    fn read_document(&self, bytes: &[u8]) -> Result<T, String>;
}

/// A feed or an error, as mathematical values.
pub open spec fn feed_result_view(result: Result<Feed, FeedError>) -> Result<
    FeedView,
    FeedErrorView,
> {
    match result {
        Ok(feed) => Ok(feed@),
        Err(error) => Err(error@),
    }
}

/// The error for a document that is not built as a feed must be, as
/// mathematical values.
pub open spec fn malformed(detail: Seq<char>) -> FeedErrorView {
    FeedErrorView { kind: ErrorKind::Malformed, message: invalid_xml_prefix() + detail }
}

/// The context given to the error of an entry that cannot be read.
pub open spec fn entry_context() -> Seq<char> {
    "Failed to deserialize an atom feed entry"@
}

/// What every message about a malformed document begins with.
pub open spec fn invalid_xml_prefix() -> Seq<char> {
    "Invalid xml structure: "@
}

/// The error for a document that is not built as a feed must be.
pub fn invalid_xml_structure(s: String) -> (e: FeedError)
    ensures
        e@.kind == ErrorKind::Malformed,
        e@.message == invalid_xml_prefix() + s@,
{
    let mut message = String::from_str("Invalid xml structure: ");
    message.append(s.as_str());
    FeedError::new(ErrorKind::Malformed, message)
}

/// The message of the failure where there is no format to try.
pub open spec fn no_fallbacks_message() -> Seq<char> {
    "No fallbacks to parse feeds for!"@
}

/// The context given to the failure of the last format tried.
pub open spec fn all_failed_context() -> Seq<char> {
    "All fallbacks failed, returning last error message."@
}

/// Every attempt failed.
pub open spec fn all_failed(attempts: Seq<Result<Feed, FeedError>>) -> bool {
    forall|i: int| 0 <= i < attempts.len() ==> (#[trigger] attempts[i]) is Err
}

/// The attempt at `i` succeeded and none before it did.
pub open spec fn is_first_success(attempts: Seq<Result<Feed, FeedError>>, i: int) -> bool {
    &&& 0 <= i < attempts.len()
    &&& attempts[i] is Ok
    &&& forall|j: int| 0 <= j < i ==> (#[trigger] attempts[j]) is Err
}

/// The failure that is reported where every attempt failed: that of the
/// last attempt, or that there was none to make.
pub open spec fn last_failure(attempts: Seq<Result<Feed, FeedError>>) -> FeedErrorView {
    if attempts.len() == 0 {
        FeedErrorView { kind: ErrorKind::Malformed, message: no_fallbacks_message() }
    } else {
        attempts.last()->Err_0@
    }
}

/// `result` is what a run of attempts comes to: the feed of the first that
/// succeeded; where all failed, the last failure, told as the failure of
/// them all.
pub open spec fn is_fallback_result(
    result: Result<Feed, FeedError>,
    attempts: Seq<Result<Feed, FeedError>>,
) -> bool {
    &&& all_failed(attempts) ==> {
        &&& result is Err
        &&& result->Err_0@.kind == last_failure(attempts).kind
        &&& result->Err_0@.message == with_context(
            all_failed_context(),
            last_failure(attempts).message,
        )
    }
    &&& forall|i: int| #[trigger]
        is_first_success(attempts, i) ==> result is Ok && result->Ok_0@ == attempts[i]->Ok_0@
}

/// The error where every attempt failed, from the failure of the last one.
fn all_failed_error(last: Option<FeedError>) -> (e: FeedError)
    ensures
        e@.kind == (match last {
            Some(failure) => failure@.kind,
            None => ErrorKind::Malformed,
        }),
        e@.message == with_context(
            all_failed_context(),
            match last {
                Some(failure) => failure@.message,
                None => no_fallbacks_message(),
            },
        ),
{
    let failure = match last {
        Some(failure) => failure,
        None => FeedError::new(
            ErrorKind::Malformed,
            String::from_str("No fallbacks to parse feeds for!"),
        ),
    };
    failure.context("All fallbacks failed, returning last error message.")
}

/// What a run of attempts comes to, the attempts given in the order in
/// which they were made.
pub fn first_success(attempts: Vec<Result<Feed, FeedError>>) -> (result: Result<Feed, FeedError>)
    ensures
        is_fallback_result(result, attempts@),
{
    let ghost all = attempts@;
    let mut rest = attempts;
    let total: usize = rest.len();
    let mut success: Option<Feed> = None;
    let mut last: Option<FeedError> = None;
    while rest.len() > 0
        invariant
            rest@.len() <= all.len(),
            total == all.len(),
            rest@ == all.take(rest@.len() as int),
            match success {
                Some(feed) => exists|i: int|
                    {
                        &&& rest@.len() <= i < all.len()
                        &&& (#[trigger] all[i]) == Ok::<Feed, FeedError>(feed)
                        &&& forall|j: int| rest@.len() <= j < i ==> (#[trigger] all[j]) is Err
                    },
                None => forall|j: int| rest@.len() <= j < all.len() ==> (#[trigger] all[j]) is Err,
            },
            match last {
                Some(failure) => all.len() > 0 && all.last() == Err::<Feed, FeedError>(failure),
                None => all.len() == rest@.len() || all.last() is Ok,
            },
        decreases rest.len(),
    {
        let ghost n = rest@.len() as int;
        let is_last = rest.len() == total;
        let attempt = rest.pop().unwrap();
        assert(attempt == all[n - 1]) by {
            assert(all.take(n)[n - 1] == all[n - 1]);
        }
        assert(rest@ =~= all.take(n - 1));
        match attempt {
            Ok(feed) => {
                success = Some(feed);
            },
            Err(failure) => {
                if is_last {
                    last = Some(failure);
                }
            },
        }
    }
    match success {
        Some(feed) => {
            let result = Ok(feed);
            assert forall|i: int| #[trigger] is_first_success(all, i) implies result is Ok
                && result->Ok_0@ == all[i]->Ok_0@ by {
                let k = choose|k: int|
                    {
                        &&& 0 <= k < all.len()
                        &&& (#[trigger] all[k]) == Ok::<Feed, FeedError>(feed)
                        &&& forall|j: int| 0 <= j < k ==> (#[trigger] all[j]) is Err
                    };
                if i < k {
                    assert(all[i] is Err);
                } else if k < i {
                    assert(all[k] is Err);
                }
            }
            assert(!all_failed(all)) by {
                let k = choose|k: int| 0 <= k < all.len() && (#[trigger] all[k]) == Ok::<Feed, FeedError>(feed);
                assert(all[k] is Ok);
            }
            result
        },
        None => {
            let result = Err(all_failed_error(last));
            assert forall|i: int| #[trigger] is_first_success(all, i) implies false by {
                assert(all[i] is Err);
            }
            result
        },
    }
}

/// Several formats, tried in their order until one reads the bytes.
pub struct FallbackDeserializer {
    fallbacks: Vec<Box<dyn FeedDeserializer>>,
}

impl FallbackDeserializer {
    /// The number of formats that can be tried.
    pub closed spec fn count(&self) -> nat {
        self.fallbacks@.len()
    }

    pub fn new(fallbacks: Vec<Box<dyn FeedDeserializer>>) -> (deserializer: FallbackDeserializer)
        ensures
            deserializer.count() == fallbacks@.len(),
    {
        FallbackDeserializer { fallbacks }
    }
}

impl FeedDeserializer for FallbackDeserializer {
    /// Tries the formats in their order and stops at the first that reads
    /// the bytes. The result is what [`first_success`] gives for the
    /// attempts that were made.
    fn parse_feed_from_bytes(&self, bytes: &[u8]) -> (result: Result<Feed, FeedError>)
        ensures
            exists|attempts: Seq<Result<Feed, FeedError>>|
                {
                    &&& attempts.len() <= self.count()
                    &&& attempts.len() < self.count() ==> !all_failed(attempts)
                    &&& #[trigger] is_fallback_result(result, attempts)
                },
    {
        let ghost mut attempts: Seq<Result<Feed, FeedError>> = Seq::empty();
        let mut last: Option<FeedError> = None;
        let mut i: usize = 0;
        while i < self.fallbacks.len()
            invariant
                0 <= i <= self.fallbacks@.len(),
                attempts.len() == i,
                all_failed(attempts),
                match last {
                    Some(failure) => i > 0 && attempts.last() == Err::<Feed, FeedError>(failure),
                    None => i == 0,
                },
            decreases self.fallbacks@.len() - i,
        {
            let attempt = self.fallbacks[i].parse_feed_from_bytes(bytes);
            let ghost before = attempts;
            proof {
                attempts = attempts.push(attempt);
            }
            match attempt {
                Ok(feed) => {
                    let result = Ok(feed);
                    proof {
                        assert(attempts[i as int] is Ok);
                        assert forall|k: int| #[trigger] is_first_success(attempts, k) implies k
                            == i by {
                            if k < i {
                                assert(attempts[k] == before[k]);
                            }
                        }
                        assert(is_fallback_result(result, attempts));
                    }
                    return result;
                },
                Err(failure) => {
                    last = Some(failure);
                    assert forall|k: int| 0 <= k < attempts.len() implies (
                    #[trigger] attempts[k]) is Err by {
                        if k < i {
                            assert(attempts[k] == before[k]);
                        }
                    }
                },
            }
            i = i + 1;
        }
        let result = Err(all_failed_error(last));
        proof {
            assert forall|k: int| #[trigger] is_first_success(attempts, k) implies false by {
                assert(attempts[k] is Err);
            }
            assert(is_fallback_result(result, attempts));
        }
        result
    }
}

} // verus!
