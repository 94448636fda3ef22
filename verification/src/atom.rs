//! An Atom document as it stands in the XML: texts only.

use vstd::prelude::*;

verus! {

/// A `link` element: where it points, how it relates to the document, and
/// the type of what it points to.
#[derive(Debug, PartialEq, Clone, Default)]
pub struct Link {
    pub href: String,
    pub rel: String,
    pub link_type: String,
}

/// An `entry` element.
#[derive(Debug, PartialEq, Clone, Default)]
pub struct AtomEntry {
    pub title: String,
    pub id: String,
    pub link: Link,
    pub updated: String,
}

/// A `feed` element.
#[derive(Debug, PartialEq, Clone, Default)]
pub struct AtomFeed {
    pub links: Vec<Link>,
    pub title: String,
    pub updated: String,
    pub entries: Vec<AtomEntry>,
}

/// The first link of the given type, if there is one.
pub open spec fn first_link_of_type(links: Seq<Link>, link_type: Seq<char>) -> Option<Link>
    decreases links.len(),
{
    if links.len() == 0 {
        None
    } else if links.first().link_type@ == link_type {
        Some(links.first())
    } else {
        first_link_of_type(links.drop_first(), link_type)
    }
}

/// Where the first link of the given type points to.
pub fn href_of_type<'a>(links: &'a Vec<Link>, link_type: &str) -> (href: Option<&'a String>)
    ensures
        match first_link_of_type(links@, link_type@) {
            Some(link) => href == Some(&link.href),
            None => href is None,
        },
{
    let wanted = link_type.to_owned();
    let mut i: usize = 0;
    assert(links@.skip(0) =~= links@);
    while i < links.len()
        invariant
            0 <= i <= links@.len(),
            wanted@ == link_type@,
            first_link_of_type(links@, link_type@) == first_link_of_type(
                links@.skip(i as int),
                link_type@,
            ),
        decreases links@.len() - i,
    {
        if links[i].link_type == wanted {
            assert(links@.skip(i as int).first() == links@[i as int]);
            return Some(&links[i].href);
        }
        proof {
            assert(links@.skip(i as int).first() == links@[i as int]);
            assert(links@.skip(i as int).drop_first() =~= links@.skip(i as int + 1));
        }
        i = i + 1;
    }
    proof {
        assert(links@.skip(links@.len() as int) =~= Seq::<Link>::empty());
    }
    None
}

} // verus!
