//! The capability to fetch the bytes behind a URL.

use crate::error::FeedError;
use vstd::prelude::*;

verus! {

/// Something that fetches the bytes behind a URL. A fetch that fails gives
/// an error and is not tried again here.
pub trait HttpClient {
    fn get_bytes(&mut self, url: &str) -> Result<Vec<u8>, FeedError>;
}

} // verus!
