//! Memory tools: which stored memories a tag search returns.
use vstd::prelude::*;
use crate::memory::MemoryEntry;
use crate::text::{find_seq, find_seq_from, chars_of};

verus! {

/// The namespace the memory tools store their memories in.
pub open spec fn tool_namespace() -> Seq<char> {
    "default"@
}

/// The namespace the memory tools store their memories in.
pub fn memory_namespace() -> (n: &'static str)
    ensures
        n@ == tool_namespace(),
{
    "default"
}

/// The tag search over a listing: every memory when `tag` is empty; else, in
/// listing order, the id and content of each entry whose tag contains `tag`
/// (`entries[i]` is the entry read for `listing[i]`, `None` where it could not
/// be read).
pub open spec fn tag_search(
    listing: Seq<(Seq<char>, Seq<char>)>,
    entries: Seq<Option<(Seq<char>, Seq<char>)>>,
    tag: Seq<char>,
) -> Seq<(Seq<char>, Seq<char>)>
    decreases listing.len(),
{
    if tag.len() == 0 {
        listing
    } else if listing.len() == 0 || entries.len() == 0 {
        Seq::empty()
    } else {
        let rest = tag_search(listing.drop_last(), entries.drop_last(), tag);
        match entries.last() {
            Some((t, content)) => if find_seq_from(t, tag, 0) is Some {
                rest.push((listing.last().0, content))
            } else {
                rest
            },
            None => rest,
        }
    }
}

/// An entry as its tag and content.
pub open spec fn tag_and_content(e: Option<MemoryEntry>) -> Option<(Seq<char>, Seq<char>)> {
    match e {
        Some(m) => Some((m.tag@, m.content@)),
        None => None,
    }
}

/// Search memories by tag (an empty tag returns all of them).
pub fn search_by_tag(
    listing: Vec<(String, String)>,
    entries: &[Option<MemoryEntry>],
    tag: &str,
) -> (found: Vec<(String, String)>)
    requires
        entries@.len() == listing@.len(),
    ensures
        found.deep_view() == tag_search(
            listing.deep_view(),
            entries@.map_values(|e: Option<MemoryEntry>| tag_and_content(e)),
            tag@,
        ),
{
    let ghost all = listing.deep_view();
    let ghost ev = entries@.map_values(|e: Option<MemoryEntry>| tag_and_content(e));
    let tc = chars_of(tag);
    if tc.len() == 0 {
        return listing;
    }
    let mut found: Vec<(String, String)> = Vec::new();
    let mut i: usize = 0;
    assert(found.deep_view() =~= tag_search(all.take(0), ev.take(0), tag@));
    while i < listing.len()
        invariant
            i <= listing@.len() == entries@.len(),
            all == listing.deep_view(),
            ev == entries@.map_values(|e: Option<MemoryEntry>| tag_and_content(e)),
            tc@ == tag@,
            tag@.len() > 0,
            found.deep_view() == tag_search(all.take(i as int), ev.take(i as int), tag@),
        decreases listing.len() - i,
    {
        let ghost before = found.deep_view();
        assert(all.take(i + 1).drop_last() =~= all.take(i as int));
        assert(ev.take(i + 1).drop_last() =~= ev.take(i as int));
        assert(all.take(i + 1).last() == all[i as int]);
        assert(ev.take(i + 1).last() == ev[i as int]);
        match &entries[i] {
            Some(e) => {
                let t = chars_of(e.tag.as_str());
                if find_seq(&t, &tc, 0).is_some() {
                    found.push((listing[i].0.clone(), e.content.clone()));
                    assert(found.deep_view() =~= before.push((all[i as int].0, e.content@)));
                }
            },
            None => {},
        }
        i = i + 1;
    }
    assert(all.take(listing@.len() as int) =~= all);
    assert(ev.take(listing@.len() as int) =~= ev);
    found
}

/// A search with an empty tag returns every listed memory.
pub proof fn law_empty_tag_returns_all(
    listing: Seq<(Seq<char>, Seq<char>)>,
    entries: Seq<Option<(Seq<char>, Seq<char>)>>,
)
    ensures
        tag_search(listing, entries, Seq::empty()) == listing,
{
}

/// The id and content of each entry of `listing` whose tag contains `tag`,
/// in listing order (`entries[i]` is the tag and content read for the
/// `i`-th entry, `None` where it could not be read).
pub open spec fn tag_containing_matches(
    listing: Seq<(Seq<char>, Seq<char>)>,
    entries: Seq<Option<(Seq<char>, Seq<char>)>>,
    tag: Seq<char>,
) -> Seq<(Seq<char>, Seq<char>)> {
    Seq::new(listing.len(), |i: int| i).filter_map(
        |i: int|
            match entries[i] {
                Some((t, content)) => if find_seq_from(t, tag, 0) is Some {
                    Some((listing[i].0, content))
                } else {
                    None
                },
                None => None,
            },
    )
}

proof fn lemma_tag_search_prefix(
    listing: Seq<(Seq<char>, Seq<char>)>,
    entries: Seq<Option<(Seq<char>, Seq<char>)>>,
    tag: Seq<char>,
    k: int,
)
    requires
        tag.len() > 0,
        listing.len() == entries.len(),
        0 <= k <= listing.len(),
    ensures
        tag_search(listing.take(k), entries.take(k), tag) == Seq::new(k as nat, |i: int| i).filter_map(
            |i: int|
                match entries[i] {
                    Some((t, content)) => if find_seq_from(t, tag, 0) is Some {
                        Some((listing[i].0, content))
                    } else {
                        None
                    },
                    None => None,
                },
        ),
    decreases k,
{
    let f = |i: int|
        match entries[i] {
            Some((t, content)) => if find_seq_from(t, tag, 0) is Some {
                Some((listing[i].0, content))
            } else {
                None
            },
            None => None,
        };
    if k == 0 {
        assert(listing.take(0).len() == 0);
    } else {
        lemma_tag_search_prefix(listing, entries, tag, k - 1);
        assert(listing.take(k).drop_last() =~= listing.take(k - 1));
        assert(entries.take(k).drop_last() =~= entries.take(k - 1));
        let idx = Seq::new(k as nat, |i: int| i);
        assert(idx.drop_last() =~= Seq::new((k - 1) as nat, |i: int| i));
        let rest = idx.drop_last().filter_map(f);
        match f(k - 1) {
            Some(x) => {
                assert(rest.push(x) =~= rest + seq![x]);
            },
            None => {},
        }
    }
}

/// A search with a non-empty tag returns, in listing order, the id and
/// content of exactly the memories whose tag contains the query.
pub proof fn law_tag_search_keeps_containing_tags(
    listing: Seq<(Seq<char>, Seq<char>)>,
    entries: Seq<Option<(Seq<char>, Seq<char>)>>,
    tag: Seq<char>,
)
    requires
        tag.len() > 0,
        listing.len() == entries.len(),
    ensures
        tag_search(listing, entries, tag) == tag_containing_matches(listing, entries, tag),
{
    lemma_tag_search_prefix(listing, entries, tag, listing.len() as int);
    assert(listing.take(listing.len() as int) =~= listing);
    assert(entries.take(entries.len() as int) =~= entries);
}

/// Register memory tools (tools are registered at the MCP level).
pub fn register() {
}

} // verus!
