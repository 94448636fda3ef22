//! The common feed model and the merge of several feeds into one.

use crate::time::Timestamp;
use vstd::prelude::*;
use vstd::string::StringExecFns;

verus! {

/// One item of a feed.
#[derive(Debug, PartialEq, Clone)]
pub struct Entry {
    pub title: String,
    pub link: String,
    pub id: String,
    pub updated: Timestamp,
    pub summary: String,
}

/// A feed: its own description and its entries in order.
#[derive(Debug, PartialEq)]
pub struct Feed {
    pub title: String,
    pub link: String,
    pub author_name: String,
    pub id: String,
    pub entries: Vec<Entry>,
}

/// What an [`Entry`] holds, as mathematical values.
pub struct EntryView {
    pub title: Seq<char>,
    pub link: Seq<char>,
    pub id: Seq<char>,
    pub updated: Timestamp,
    pub summary: Seq<char>,
}

/// What a [`Feed`] holds, as mathematical values.
pub struct FeedView {
    pub title: Seq<char>,
    pub link: Seq<char>,
    pub author_name: Seq<char>,
    pub id: Seq<char>,
    pub entries: Seq<EntryView>,
}

impl View for Entry {
    type V = EntryView;

    open spec fn view(&self) -> EntryView {
        EntryView {
            title: self.title@,
            link: self.link@,
            id: self.id@,
            updated: self.updated,
            summary: self.summary@,
        }
    }
}

impl View for Feed {
    type V = FeedView;

    open spec fn view(&self) -> FeedView {
        FeedView {
            title: self.title@,
            link: self.link@,
            author_name: self.author_name@,
            id: self.id@,
            entries: entry_views(self.entries@),
        }
    }
}

impl Feed {
    /// The same feed with other entries.
    pub fn with_entries(self, entries: Vec<Entry>) -> (feed: Feed)
        ensures
            feed@ == (FeedView { entries: entry_views(entries@), ..self@ }),
    {
        Feed {
            title: self.title,
            link: self.link,
            author_name: self.author_name,
            id: self.id,
            entries,
        }
    }
}

/// The views of a sequence of entries, in the same order.
pub open spec fn entry_views(entries: Seq<Entry>) -> Seq<EntryView> {
    entries.map_values(|e: Entry| e@)
}

/// The views of a sequence of feeds, in the same order.
pub open spec fn feed_views(feeds: Seq<Feed>) -> Seq<FeedView> {
    feeds.map_values(|f: Feed| f@)
}

/// The author of a feed that names none.
pub open spec fn unknown_author() -> Seq<char> {
    "Unknown"@
}

/// What stands between two titles in the title of a merged feed.
pub open spec fn title_separator() -> Seq<char> {
    " + "@
}

/// The parts in order, with `sep` between each two neighbours.
pub open spec fn joined(parts: Seq<Seq<char>>, sep: Seq<char>) -> Seq<char>
    decreases parts.len(),
{
    if parts.len() == 0 {
        Seq::empty()
    } else if parts.len() == 1 {
        parts[0]
    } else {
        joined(parts.drop_last(), sep) + sep + parts.last()
    }
}

/// The titles of the feeds, in order.
pub open spec fn titles_of(feeds: Seq<FeedView>) -> Seq<Seq<char>> {
    feeds.map_values(|f: FeedView| f.title)
}

/// The entries of the first feed, then those of the second, and so on.
pub open spec fn concat_entries(feeds: Seq<FeedView>) -> Seq<EntryView>
    decreases feeds.len(),
{
    if feeds.len() == 0 {
        Seq::empty()
    } else {
        feeds.first().entries + concat_entries(feeds.drop_first())
    }
}

/// The number of entries in all the feeds together.
pub open spec fn total_entries(feeds: Seq<FeedView>) -> nat
    decreases feeds.len(),
{
    if feeds.len() == 0 {
        0
    } else {
        feeds.first().entries.len() + total_entries(feeds.drop_first())
    }
}

/// No entry is followed by one that was updated later.
pub open spec fn newest_first(entries: Seq<EntryView>) -> bool {
    forall|i: int, j: int|
        0 <= i < j < entries.len() ==> !(#[trigger] entries[i]).updated.before(
            (#[trigger] entries[j]).updated,
        )
}

/// The test "was updated at `t`".
pub open spec fn updated_at(t: Timestamp) -> spec_fn(EntryView) -> bool {
    |e: EntryView| e.updated == t
}

/// For every instant, the entries updated at that instant are the same in
/// `out` and in `input`, and stand in the same order.
pub open spec fn same_entries_per_instant(out: Seq<EntryView>, input: Seq<EntryView>) -> bool {
    forall|t: Timestamp| #[trigger] out.filter(updated_at(t)) == input.filter(updated_at(t))
}

/// `out` is `input` sorted by recency, newest first, where entries of the
/// same instant keep the order they had in `input`.
pub open spec fn is_stable_newest_first(out: Seq<EntryView>, input: Seq<EntryView>) -> bool {
    &&& newest_first(out)
    &&& same_entries_per_instant(out, input)
    &&& out.to_multiset() == input.to_multiset()
}

/// Putting `e` into a sequence at `pos` puts its view into the views at `pos`.
proof fn lemma_insert_views(entries: Seq<Entry>, pos: int, e: Entry)
    requires
        0 <= pos <= entries.len(),
    ensures
        entry_views(entries.insert(pos, e)) == entry_views(entries).insert(pos, e@),
{
    assert(entry_views(entries.insert(pos, e)) =~= entry_views(entries).insert(pos, e@));
}

/// An entry placed behind all strictly newer entries and before all others
/// keeps the sequence sorted, and changes the entries of each instant as
/// putting it in front of the whole sequence would.
proof fn lemma_insert_keeps_stable(sorted: Seq<EntryView>, pos: int, e: EntryView)
    requires
        newest_first(sorted),
        0 <= pos <= sorted.len(),
        forall|i: int| 0 <= i < pos ==> e.updated.before(#[trigger] sorted[i].updated),
        forall|i: int| pos <= i < sorted.len() ==> !e.updated.before(#[trigger] sorted[i].updated),
    ensures
        newest_first(sorted.insert(pos, e)),
        same_entries_per_instant(sorted.insert(pos, e), seq![e] + sorted),
        sorted.insert(pos, e).to_multiset() == (seq![e] + sorted).to_multiset(),
{
    let out = sorted.insert(pos, e);
    let head = sorted.subrange(0, pos);
    let tail = sorted.subrange(pos, sorted.len() as int);
    assert(sorted =~= head + tail);
    assert(out =~= head + seq![e] + tail);
    assert forall|i: int, j: int| 0 <= i < j < out.len() implies !(#[trigger] out[i]).updated.before(
        (#[trigger] out[j]).updated,
    ) by {
        if i < pos && j == pos {
            assert(out[i] == sorted[i]);
        } else if i < pos && j > pos {
            assert(out[i] == sorted[i]);
            assert(out[j] == sorted[j - 1]);
        } else if i == pos {
            assert(out[j] == sorted[j - 1]);
        } else if i > pos {
            assert(out[i] == sorted[i - 1]);
            assert(out[j] == sorted[j - 1]);
        } else {
            assert(out[i] == sorted[i]);
            assert(out[j] == sorted[j]);
        }
    }
    assert forall|t: Timestamp| #[trigger]
        out.filter(updated_at(t)) == (seq![e] + sorted).filter(updated_at(t)) by {
        let p = updated_at(t);
        Seq::filter_distributes_over_add(head + seq![e], tail, p);
        Seq::filter_distributes_over_add(head, seq![e], p);
        Seq::filter_distributes_over_add(head, tail, p);
        Seq::filter_distributes_over_add(seq![e], sorted, p);
        if e.updated == t {
            assert forall|i: int| 0 <= i < head.len() implies !p(#[trigger] head[i]) by {
                assert(head[i] == sorted[i]);
            }
            head.lemma_all_neg_filter_empty(p);
            assert(head.filter(p) =~= Seq::<EntryView>::empty());
            assert(out.filter(p) =~= seq![e].filter(p) + tail.filter(p));
            assert(sorted.filter(p) =~= tail.filter(p));
        } else {
            lemma_filter_one(e, p);
            assert(out.filter(p) =~= head.filter(p) + tail.filter(p));
            assert((seq![e] + sorted).filter(p) =~= sorted.filter(p));
        }
    }
    vstd::seq_lib::to_multiset_insert(sorted, pos, e);
    vstd::seq_lib::to_multiset_insert(sorted, 0, e);
    assert(sorted.insert(0, e) =~= seq![e] + sorted);
}

/// Places one entry into a list that is sorted newest first: behind every
/// entry that is strictly newer, in front of every other.
fn insert_by_recency(sorted: &mut Vec<Entry>, entry: Entry)
    requires
        newest_first(entry_views(old(sorted)@)),
    ensures
        is_stable_newest_first(
            entry_views(final(sorted)@),
            seq![entry@] + entry_views(old(sorted)@),
        ),
        final(sorted)@.len() == old(sorted)@.len() + 1,
{
    let ghost before = sorted@;
    let mut pos: usize = 0;
    while pos < sorted.len() && entry.updated.is_before(&sorted[pos].updated)
        invariant
            sorted@ == before,
            0 <= pos <= sorted.len(),
            forall|i: int| 0 <= i < pos ==> entry.updated.before(#[trigger] sorted@[i].updated),
        decreases sorted.len() - pos,
    {
        pos = pos + 1;
    }
    proof {
        let views = entry_views(before);
        assert forall|i: int| pos <= i < views.len() implies !entry@.updated.before(
            #[trigger] views[i].updated,
        ) by {
            if pos < i {
                assert(!views[pos as int].updated.before(views[i].updated));
            }
        }
        assert forall|i: int| 0 <= i < pos implies entry@.updated.before(
            #[trigger] views[i].updated,
        ) by {
            assert(views[i].updated == before[i].updated);
        }
        lemma_insert_keeps_stable(views, pos as int, entry@);
        lemma_insert_views(before, pos as int, entry);
    }
    sorted.insert(pos, entry);
}

/// Sorting is kept when one more entry comes in front of what was sorted.
proof fn lemma_stable_step(
    next: Seq<EntryView>,
    prev: Seq<EntryView>,
    e: EntryView,
    input: Seq<EntryView>,
)
    requires
        is_stable_newest_first(next, seq![e] + prev),
        is_stable_newest_first(prev, input),
    ensures
        is_stable_newest_first(next, seq![e] + input),
{
    assert forall|t: Timestamp| #[trigger]
        next.filter(updated_at(t)) == (seq![e] + input).filter(updated_at(t)) by {
        let p = updated_at(t);
        Seq::filter_distributes_over_add(seq![e], prev, p);
        Seq::filter_distributes_over_add(seq![e], input, p);
        assert(prev.filter(p) == input.filter(p));
    }
    vstd::seq_lib::lemma_multiset_commutative(seq![e], prev);
    vstd::seq_lib::lemma_multiset_commutative(seq![e], input);
}

/// What passes a test of a single entry is the entry or nothing.
proof fn lemma_filter_one(e: EntryView, p: spec_fn(EntryView) -> bool)
    ensures
        p(e) ==> seq![e].filter(p) == seq![e],
        !p(e) ==> seq![e].filter(p) == Seq::<EntryView>::empty(),
{
    assert(seq![e].drop_last() =~= Seq::<EntryView>::empty());
    assert(seq![e].last() == e);
    reveal_with_fuel(Seq::filter, 2);
    if p(e) {
        assert(seq![e].filter(p) =~= seq![e]);
    } else {
        assert(seq![e].filter(p) =~= Seq::<EntryView>::empty());
    }
}

/// The first entry of a sorted sequence is no older than any entry that
/// `other` holds at some instant, if both hold the same entries at every
/// instant.
proof fn lemma_first_is_newest(a: Seq<EntryView>, other: Seq<EntryView>)
    requires
        a.len() > 0,
        other.len() > 0,
        newest_first(a),
        same_entries_per_instant(a, other),
    ensures
        !a[0].updated.before(other[0].updated),
{
    let y = other[0];
    let p = updated_at(y.updated);
    other.lemma_filter_contains(p, 0);
    assert(a.filter(p) == other.filter(p));
    a.lemma_filter_contains_rev(p, y);
    let i = choose|i: int| 0 <= i < a.len() && a[i] == y;
    if i > 0 {
        assert(!a[0].updated.before(a[i].updated));
    }
}

/// Two sorted sequences that hold the same entries at every instant, in
/// the same order, are the same sequence.
proof fn lemma_sorted_and_same_per_instant(a: Seq<EntryView>, b: Seq<EntryView>)
    requires
        a.len() == b.len(),
        newest_first(a),
        newest_first(b),
        same_entries_per_instant(a, b),
    ensures
        a == b,
    decreases a.len(),
{
    if a.len() == 0 {
        assert(a =~= b);
    } else {
        let x = a[0];
        let y = b[0];
        let rest_a = a.drop_first();
        let rest_b = b.drop_first();
        assert(a =~= seq![x] + rest_a);
        assert(b =~= seq![y] + rest_b);
        assert(same_entries_per_instant(b, a)) by {
            assert forall|t: Timestamp| #[trigger]
                b.filter(updated_at(t)) == a.filter(updated_at(t)) by {
                assert(a.filter(updated_at(t)) == b.filter(updated_at(t)));
            }
        }
        lemma_first_is_newest(a, b);
        lemma_first_is_newest(b, a);
        assert(x.updated == y.updated);
        let first = updated_at(x.updated);
        assert(x == y) by {
            Seq::filter_distributes_over_add(seq![x], rest_a, first);
            Seq::filter_distributes_over_add(seq![y], rest_b, first);
            lemma_filter_one(x, first);
            lemma_filter_one(y, first);
            assert(a.filter(first) == b.filter(first));
            assert((seq![x] + rest_a.filter(first))[0] == x);
            assert((seq![y] + rest_b.filter(first))[0] == y);
        }
        assert forall|t: Timestamp| #[trigger]
            rest_a.filter(updated_at(t)) == rest_b.filter(updated_at(t)) by {
            let p = updated_at(t);
            Seq::filter_distributes_over_add(seq![x], rest_a, p);
            Seq::filter_distributes_over_add(seq![y], rest_b, p);
            lemma_filter_one(x, p);
            assert(a.filter(p) == b.filter(p));
            let head = seq![x].filter(p);
            let left = rest_a.filter(p);
            let right = rest_b.filter(p);
            assert(head + left == head + right);
            assert(left.len() == right.len()) by {
                assert((head + left).len() == head.len() + left.len());
                assert((head + right).len() == head.len() + right.len());
            }
            assert forall|i: int| 0 <= i < left.len() implies left[i] == right[i] by {
                assert((head + left)[head.len() + i] == left[i]);
                assert((head + right)[head.len() + i] == right[i]);
            }
            assert(left =~= right);
        }
        assert(newest_first(rest_a)) by {
            assert forall|i: int, j: int| 0 <= i < j < rest_a.len() implies !(
            #[trigger] rest_a[i]).updated.before((#[trigger] rest_a[j]).updated) by {
                assert(rest_a[i] == a[i + 1]);
                assert(rest_a[j] == a[j + 1]);
            }
        }
        assert(newest_first(rest_b)) by {
            assert forall|i: int, j: int| 0 <= i < j < rest_b.len() implies !(
            #[trigger] rest_b[i]).updated.before((#[trigger] rest_b[j]).updated) by {
                assert(rest_b[i] == b[i + 1]);
                assert(rest_b[j] == b[j + 1]);
            }
        }
        lemma_sorted_and_same_per_instant(rest_a, rest_b);
    }
}

/// Sorting by recency, with entries of the same instant kept in their
/// order, has one result only: any two are the same sequence. So the merge
/// of the same feeds in the same order is always the same.
pub proof fn lemma_stable_newest_first_is_unique(
    a: Seq<EntryView>,
    b: Seq<EntryView>,
    input: Seq<EntryView>,
)
    requires
        is_stable_newest_first(a, input),
        is_stable_newest_first(b, input),
    ensures
        a == b,
{
    vstd::seq_lib::to_multiset_len(a);
    vstd::seq_lib::to_multiset_len(b);
    assert(same_entries_per_instant(a, b)) by {
        assert forall|t: Timestamp| #[trigger]
            a.filter(updated_at(t)) == b.filter(updated_at(t)) by {
            assert(a.filter(updated_at(t)) == input.filter(updated_at(t)));
            assert(b.filter(updated_at(t)) == input.filter(updated_at(t)));
        }
    }
    lemma_sorted_and_same_per_instant(a, b);
}

/// Of two entries the newer one comes first, whichever came first in the
/// input.
pub proof fn lemma_newer_entry_comes_first(out: Seq<EntryView>, a: EntryView, b: EntryView)
    requires
        is_stable_newest_first(out, seq![a, b]),
        a.updated.before(b.updated),
    ensures
        out == seq![b, a],
{
    let input = seq![a, b];
    let sorted = seq![b, a];
    assert(input =~= seq![a] + seq![b]);
    assert(sorted =~= seq![b] + seq![a]);
    assert(newest_first(sorted));
    assert forall|t: Timestamp| #[trigger]
        sorted.filter(updated_at(t)) == input.filter(updated_at(t)) by {
        let p = updated_at(t);
        Seq::filter_distributes_over_add(seq![a], seq![b], p);
        Seq::filter_distributes_over_add(seq![b], seq![a], p);
        lemma_filter_one(a, p);
        lemma_filter_one(b, p);
        assert(sorted.filter(p) =~= input.filter(p));
    }
    vstd::seq_lib::lemma_multiset_commutative(seq![a], seq![b]);
    vstd::seq_lib::lemma_multiset_commutative(seq![b], seq![a]);
    assert(sorted.to_multiset() =~= input.to_multiset());
    lemma_stable_newest_first_is_unique(out, sorted, input);
}

/// Two parts are joined with the separator between them.
pub proof fn lemma_joined_two(first: Seq<char>, second: Seq<char>, sep: Seq<char>)
    ensures
        joined(seq![first, second], sep) == first + sep + second,
{
    let parts = seq![first, second];
    assert(parts.drop_last() =~= seq![first]);
    assert(parts.last() == second);
    reveal_with_fuel(joined, 3);
    assert(joined(seq![first], sep) == first);
}

/// The entries of two feeds of one entry each are the one entry, then the
/// other.
pub proof fn lemma_concat_two_single(first: FeedView, second: FeedView)
    requires
        first.entries.len() == 1,
        second.entries.len() == 1,
    ensures
        concat_entries(seq![first, second]) == seq![first.entries[0], second.entries[0]],
{
    let feeds = seq![first, second];
    assert(feeds.drop_first() =~= seq![second]);
    assert(seq![second].drop_first() =~= Seq::<FeedView>::empty());
    reveal_with_fuel(concat_entries, 3);
    assert(concat_entries(seq![second]) =~= second.entries);
    assert(concat_entries(feeds) =~= seq![first.entries[0], second.entries[0]]);
}

/// The concatenation holds as many entries as the feeds hold together.
pub proof fn lemma_concat_entries_len(feeds: Seq<FeedView>)
    ensures
        concat_entries(feeds).len() == total_entries(feeds),
    decreases feeds.len(),
{
    if feeds.len() > 0 {
        lemma_concat_entries_len(feeds.drop_first());
    }
}

/// Merges feeds into one feed with the given identity. Its title joins the
/// titles of the feeds; its entries are all their entries, newest first,
/// where entries of the same instant stay in the order of the feeds and,
/// within one feed, in the order they had there.
pub fn merge_feeds(id: String, link: String, feeds: Vec<Feed>) -> (merged: Feed)
    ensures
        merged@.id == id@,
        merged@.link == link@,
        merged@.author_name == unknown_author(),
        merged@.title == joined(titles_of(feed_views(feeds@)), title_separator()),
        is_stable_newest_first(merged@.entries, concat_entries(feed_views(feeds@))),
        merged@.entries.len() == total_entries(feed_views(feeds@)),
{
    let ghost all = feed_views(feeds@);
    let ghost titles = titles_of(all);
    let mut title = String::new();
    let mut i: usize = 0;
    while i < feeds.len()
        invariant
            0 <= i <= feeds.len(),
            all == feed_views(feeds@),
            titles == titles_of(all),
            title@ == joined(titles.take(i as int), title_separator()),
        decreases feeds.len() - i,
    {
        let ghost so_far = title@;
        if i > 0 {
            title.append(" + ");
        }
        title.append(feeds[i].title.as_str());
        proof {
            let parts = titles.take(i as int + 1);
            assert(parts.drop_last() =~= titles.take(i as int));
            assert(parts.last() == feeds@[i as int]@.title);
            if i == 0 {
                assert(title@ =~= parts[0]);
            }
        }
        i = i + 1;
    }
    assert(titles.take(feeds.len() as int) =~= titles);

    let mut rest = feeds;
    let mut out: Vec<Entry> = Vec::new();
    proof {
        assert(all.skip(all.len() as int) =~= Seq::<FeedView>::empty());
        assert(entry_views(out@) =~= Seq::<EntryView>::empty());
        assert forall|t: Timestamp| #[trigger]
            entry_views(out@).filter(updated_at(t)) == Seq::<EntryView>::empty().filter(
                updated_at(t),
            ) by {}
    }
    while rest.len() > 0
        invariant
            rest@.len() <= all.len(),
            feed_views(rest@) == all.take(rest@.len() as int),
            is_stable_newest_first(
                entry_views(out@),
                concat_entries(all.skip(rest@.len() as int)),
            ),
        decreases rest.len(),
    {
        let ghost old_rest = rest@;
        let feed = rest.pop().unwrap();
        let ghost k = rest@.len() as int;
        let mut entries = feed.entries;
        let ghost these = entry_views(entries@);
        let ghost later = concat_entries(all.skip(k + 1));
        proof {
            assert(feed@ == all[k]) by {
                assert(feed_views(old_rest)[k] == feed@);
                assert(all.take(k + 1)[k] == all[k]);
            }
            assert(these == all[k].entries);
            assert(all.skip(k).drop_first() =~= all.skip(k + 1));
            assert(these.skip(these.len() as int) =~= Seq::<EntryView>::empty());
            assert(these.skip(these.len() as int) + later =~= later);
            assert(feed_views(rest@) =~= all.take(k));
        }
        while entries.len() > 0
            invariant
                entries@.len() <= these.len(),
                entry_views(entries@) == these.take(entries@.len() as int),
                is_stable_newest_first(
                    entry_views(out@),
                    these.skip(entries@.len() as int) + later,
                ),
            decreases entries.len(),
        {
            let ghost prev = entry_views(out@);
            let ghost n = entries@.len() as int;
            let e = entries.pop().unwrap();
            insert_by_recency(&mut out, e);
            proof {
                assert(e@ == these[n - 1]) by {
                    assert(these.take(n)[n - 1] == these[n - 1]);
                }
                lemma_stable_step(entry_views(out@), prev, e@, these.skip(n) + later);
                assert(seq![e@] + (these.skip(n) + later) =~= these.skip(n - 1) + later);
                assert(entry_views(entries@) =~= these.take(n - 1));
            }
        }
        proof {
            assert(these.skip(0) =~= these);
            assert(concat_entries(all.skip(k)) == these + later);
        }
    }
    proof {
        assert(all.skip(0) =~= all);
        lemma_concat_entries_len(all);
        vstd::seq_lib::to_multiset_len(entry_views(out@));
        vstd::seq_lib::to_multiset_len(concat_entries(all));
    }
    Feed { title, link, author_name: String::from_str("Unknown"), id, entries: out }
}

} // verus!
