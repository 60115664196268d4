//! The laws the scan obeys, each proved from the definitions alone: every
//! kept entry matches the query, an empty query keeps every walked entry,
//! relative paths are computed correctly, a scan is a function of its
//! inputs, and a path absent from the walk never appears in the result.

use vstd::prelude::*;

use crate::item::{item_of, ItemModel};
use crate::paths::{lemma_split_gives_last_component, splits_name_at};
use crate::scan::{matches_query, scan_spec};

verus! {

/// An empty query matches every name: the filter is vacuous.
pub proof fn lemma_empty_query_matches(name: Seq<char>)
    ensures
        matches_query(name, Seq::<char>::empty()),
{
}

/// Every entry a scan keeps has a name that matches the query.
pub proof fn lemma_scan_names_match(root: Seq<char>, entries: Seq<Seq<char>>, query: Seq<char>)
    ensures
        forall|k: int|
            0 <= k < scan_spec(root, entries, query).len() ==> matches_query(
                (#[trigger] scan_spec(root, entries, query)[k]).name,
                query,
            ),
    decreases entries.len(),
{
    if entries.len() > 0 {
        let sub = entries.drop_last();
        let prior = scan_spec(root, sub, query);
        let result = scan_spec(root, entries, query);
        lemma_scan_names_match(root, sub, query);
        assert forall|k: int| 0 <= k < result.len() implies matches_query(
            (#[trigger] result[k]).name,
            query,
        ) by {
            if k < prior.len() {
                assert(result[k] == prior[k]);
            } else {
                assert(result[k] == item_of(root, entries.last()).unwrap());
            }
        }
    }
}

/// Every entry a scan produces comes from one of the walked paths.
pub proof fn lemma_scan_sound(root: Seq<char>, entries: Seq<Seq<char>>, query: Seq<char>)
    ensures
        forall|k: int|
            0 <= k < scan_spec(root, entries, query).len() ==> exists|j: int|
                0 <= j < entries.len() && item_of(root, entries[j]) == Some(
                    #[trigger] scan_spec(root, entries, query)[k],
                ),
    decreases entries.len(),
{
    if entries.len() > 0 {
        let sub = entries.drop_last();
        let prior = scan_spec(root, sub, query);
        let result = scan_spec(root, entries, query);
        lemma_scan_sound(root, sub, query);
        assert forall|k: int| 0 <= k < result.len() implies exists|j: int|
            0 <= j < entries.len() && #[trigger] item_of(root, entries[j]) == Some(
                #[trigger] result[k],
            ) by {
            if k < prior.len() {
                let j = choose|j: int|
                    0 <= j < sub.len() && item_of(root, sub[j]) == Some(prior[k]);
                assert(entries[j] == sub[j]);
                assert(item_of(root, entries[j]) == Some(result[k]));
            } else {
                let j = entries.len() - 1;
                assert(item_of(root, entries[j]) == Some(result[k]));
            }
        }
    }
}

/// Every walked path whose entry matches the query appears in the scan.
pub proof fn lemma_scan_complete(
    root: Seq<char>,
    entries: Seq<Seq<char>>,
    query: Seq<char>,
    j: int,
)
    requires
        0 <= j < entries.len(),
        item_of(root, entries[j]) is Some,
        matches_query(item_of(root, entries[j]).unwrap().name, query),
    ensures
        scan_spec(root, entries, query).contains(item_of(root, entries[j]).unwrap()),
    decreases entries.len(),
{
    let it = item_of(root, entries[j]).unwrap();
    let result = scan_spec(root, entries, query);
    if j == entries.len() - 1 {
        assert(result.last() == it);
        assert(result.contains(it));
    } else {
        let sub = entries.drop_last();
        assert(sub[j] == entries[j]);
        lemma_scan_complete(root, sub, query, j);
        let prior = scan_spec(root, sub, query);
        let w = choose|w: int| 0 <= w < prior.len() && prior[w] == it;
        assert(result[w] == it);
        assert(result.contains(it));
    }
}

/// With an empty query, the scan lists exactly the entries the walked
/// paths contribute: every contributing path appears, and nothing else.
pub proof fn lemma_scan_empty_query_exact(root: Seq<char>, entries: Seq<Seq<char>>)
    ensures
        forall|j: int|
            0 <= j < entries.len() && (#[trigger] item_of(root, entries[j])) is Some ==> scan_spec(
                root,
                entries,
                Seq::<char>::empty(),
            ).contains(item_of(root, entries[j]).unwrap()),
        forall|k: int|
            0 <= k < scan_spec(root, entries, Seq::<char>::empty()).len() ==> exists|j: int|
                0 <= j < entries.len() && item_of(root, entries[j]) == Some(
                    #[trigger] scan_spec(root, entries, Seq::<char>::empty())[k],
                ),
{
    assert forall|j: int|
        0 <= j < entries.len() && (#[trigger] item_of(root, entries[j])) is Some implies scan_spec(
        root,
        entries,
        Seq::<char>::empty(),
    ).contains(item_of(root, entries[j]).unwrap()) by {
        lemma_scan_complete(root, entries, Seq::<char>::empty(), j);
    }
    lemma_scan_sound(root, entries, Seq::<char>::empty());
}

/// A direct child of the root, `root/name`, is listed with its relative
/// path equal to its name.
pub proof fn lemma_direct_child_relative_path(root: Seq<char>, name: Seq<char>)
    requires
        name.len() > 0,
        forall|k: int| 0 <= k < name.len() ==> name[k] != '/',
    ensures
        item_of(root, root + seq!['/'] + name) == Some(
            (ItemModel {
                name: name,
                absolute_path: root + seq!['/'] + name,
                relative_path: name,
            }),
        ),
{
    let p = root + seq!['/'] + name;
    let j = root.len() + 1;
    assert(p[root.len() as int] == '/');
    assert(forall|k: int| j <= k < p.len() ==> p[k] == name[k - j] && p[k] != '/');
    assert(splits_name_at(p, j as int));
    lemma_split_gives_last_component(p, j as int);
    assert(p.subrange(j as int, p.len() as int) =~= name);
    assert(p.subrange(0, root.len() as int) =~= root);
}

/// An entry deeper down, `root/rest/name`, is listed with its relative
/// path equal to `rest/name`: the full path with the root prefix stripped.
pub proof fn lemma_nested_relative_path(root: Seq<char>, rest: Seq<char>, name: Seq<char>)
    requires
        name.len() > 0,
        forall|k: int| 0 <= k < name.len() ==> name[k] != '/',
    ensures
        item_of(root, root + seq!['/'] + rest + seq!['/'] + name) == Some(
            (ItemModel {
                name: name,
                absolute_path: root + seq!['/'] + rest + seq!['/'] + name,
                relative_path: rest + seq!['/'] + name,
            }),
        ),
{
    let p = root + seq!['/'] + rest + seq!['/'] + name;
    let j = root.len() + 1 + rest.len() + 1;
    assert(p[j - 1] == '/');
    assert(forall|k: int| j <= k < p.len() ==> p[k] == name[k - j] && p[k] != '/');
    assert(splits_name_at(p, j as int));
    lemma_split_gives_last_component(p, j as int);
    assert(p.subrange(j as int, p.len() as int) =~= name);
    assert(p[root.len() as int] == '/');
    assert(p.subrange(0, root.len() as int) =~= root);
    assert(p.subrange(root.len() as int + 1, p.len() as int) =~= rest + seq!['/'] + name);
}

/// Scanning is repeatable: two scans of the same walked paths with the
/// same root and query produce the same list.
pub proof fn lemma_scan_repeatable(
    root: Seq<char>,
    entries: Seq<Seq<char>>,
    query: Seq<char>,
    first: Seq<ItemModel>,
    second: Seq<ItemModel>,
)
    requires
        first == scan_spec(root, entries, query),
        second == scan_spec(root, entries, query),
    ensures
        first == second,
{
}

/// A path that the walk no longer produces — a deleted file — never
/// appears in a later scan's result.
pub proof fn lemma_scan_omits_deleted(
    root: Seq<char>,
    entries: Seq<Seq<char>>,
    query: Seq<char>,
    deleted: Seq<char>,
)
    requires
        forall|j: int| 0 <= j < entries.len() ==> entries[j] != deleted,
    ensures
        forall|k: int|
            0 <= k < scan_spec(root, entries, query).len() ==> (#[trigger] scan_spec(
                root,
                entries,
                query,
            )[k]).absolute_path != deleted,
    decreases entries.len(),
{
    if entries.len() > 0 {
        let sub = entries.drop_last();
        let prior = scan_spec(root, sub, query);
        let result = scan_spec(root, entries, query);
        assert(forall|j: int| 0 <= j < sub.len() ==> sub[j] == entries[j]);
        lemma_scan_omits_deleted(root, sub, query, deleted);
        assert forall|k: int| 0 <= k < result.len() implies (#[trigger] result[k]).absolute_path
            != deleted by {
            if k < prior.len() {
                assert(result[k] == prior[k]);
            } else {
                assert(result[k] == item_of(root, entries.last()).unwrap());
                assert(entries.last() != deleted);
            }
        }
    }
}

} // verus!
