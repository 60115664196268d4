//! The scan pipeline: turn the absolute paths that a recursive walk of the
//! root produced into the list of displayed entries whose name contains the
//! query.

use vstd::prelude::*;

use crate::item::{item_of, make_file_item, FileItem, ItemModel};
use crate::text::{contains_seq, contains_substring};

verus! {

/// An entry is kept when the query is empty or its name contains the query
/// as a substring (case-sensitive, no normalization).
pub open spec fn matches_query(name: Seq<char>, query: Seq<char>) -> bool {
    query.len() == 0 || contains_seq(name, query)
}

/// Whether an entry with this name is kept under this query.
pub fn query_matches(name: &str, query: &str) -> (r: bool)
    ensures
        r == matches_query(name@, query@),
{
    if query.unicode_len() == 0 {
        true
    } else {
        contains_substring(name, query)
    }
}

/// The list of entries that a scan over these walked paths produces, in
/// walk order: each path's entry, kept when its name matches the query.
pub open spec fn scan_spec(root: Seq<char>, entries: Seq<Seq<char>>, query: Seq<char>) -> Seq<
    ItemModel,
>
    decreases entries.len(),
{
    if entries.len() == 0 {
        Seq::<ItemModel>::empty()
    } else {
        let prior = scan_spec(root, entries.drop_last(), query);
        match item_of(root, entries.last()) {
            Some(it) => if matches_query(it.name, query) {
                prior.push(it)
            } else {
                prior
            },
            None => prior,
        }
    }
}

/// The views of a list of built entries.
pub open spec fn items_view(items: Seq<FileItem>) -> Seq<ItemModel> {
    items.map_values(|it: FileItem| it@)
}

/// The views of a list of walked paths.
pub open spec fn entries_view(entries: Seq<String>) -> Seq<Seq<char>> {
    entries.map_values(|e: String| e@)
}

/// One full scan: builds an entry for each walked path and keeps those
/// whose name matches the query. Paths that contribute nothing (an empty
/// final component, or a path not under the root) are skipped.
pub fn scan_entries(root: &str, entries: &Vec<String>, query: &str) -> (res: Vec<FileItem>)
    ensures
        items_view(res@) == scan_spec(root@, entries_view(entries@), query@),
{
    let ghost all = entries_view(entries@);
    let mut res: Vec<FileItem> = Vec::new();
    let mut i: usize = 0;
    proof {
        assert(all.subrange(0, 0) =~= Seq::<Seq<char>>::empty());
        assert(items_view(res@) =~= Seq::<ItemModel>::empty());
    }
    while i < entries.len()
        invariant
            all == entries_view(entries@),
            i <= entries.len(),
            all.len() == entries.len(),
            items_view(res@) == scan_spec(root@, all.subrange(0, i as int), query@),
        decreases entries.len() - i,
    {
        let ghost prefix = all.subrange(0, i as int);
        let ghost step = all.subrange(0, i + 1);
        proof {
            assert(step.drop_last() =~= prefix);
            assert(step.last() == entries@[i as int]@);
        }
        match make_file_item(root, entries[i].as_str()) {
            Some(it) => {
                if query_matches(it.name.as_str(), query) {
                    let ghost before = res@;
                    res.push(it);
                    proof {
                        assert(items_view(res@) =~= items_view(before).push(it@));
                    }
                }
            },
            None => {},
        }
        i = i + 1;
    }
    proof {
        assert(all.subrange(0, entries@.len() as int) =~= all);
    }
    res
}

} // verus!
