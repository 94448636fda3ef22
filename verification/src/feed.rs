//! The formats in which feeds are read.

use crate::atom::AtomFeed;
use crate::atom_serialization::AtomDeserializer;
use crate::rss_serialization::{Rss, RssDeserializer};
use crate::serialization::{DocumentReader, FallbackDeserializer, FeedDeserializer};
use vstd::prelude::*;

verus! {

/// The deserializer that reads a feed as RSS and, where that fails, as
/// Atom.
pub fn default_feed_deserializer<R, A>(rss_reader: R, atom_reader: A) -> (deserializer:
    FallbackDeserializer) where R: DocumentReader<Rss> + 'static, A: DocumentReader<AtomFeed> + 'static
    ensures
        deserializer.count() == 2,
{
    let mut fallbacks: Vec<Box<dyn FeedDeserializer>> = Vec::new();
    let rss: Box<dyn FeedDeserializer> = Box::new(RssDeserializer { reader: rss_reader });
    let atom: Box<dyn FeedDeserializer> = Box::new(AtomDeserializer { reader: atom_reader });
    fallbacks.push(rss);
    let ghost first = fallbacks@;
    fallbacks.push(atom);
    proof {
        vstd::seq::axiom_seq_push_len(Seq::<Box<dyn FeedDeserializer>>::empty(), rss);
        vstd::seq::axiom_seq_push_len(first, atom);
    }
    FallbackDeserializer::new(fallbacks)
}

} // verus!
