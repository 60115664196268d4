//! Path computations on plain strings, with `/` as the separator: the final
//! component of a path, and the path relative to a chosen root.

use vstd::prelude::*;

verus! {

/// The final component of a path: everything after the last `/`,
/// or the whole path when it holds no `/`.
pub open spec fn last_component(p: Seq<char>) -> Seq<char>
    decreases p.len(),
{
    if p.len() == 0 {
        p
    } else if p.last() == '/' {
        Seq::<char>::empty()
    } else {
        last_component(p.drop_last()).push(p.last())
    }
}

/// A path splits at `j` when no `/` follows that position and the position
/// is either the start of the path or just after a `/`.
pub open spec fn splits_name_at(p: Seq<char>, j: int) -> bool {
    &&& 0 <= j <= p.len()
    &&& (forall|k: int| j <= k < p.len() ==> p[k] != '/')
    &&& (j == 0 || p[j - 1] == '/')
}

/// At the split position, the rest of the path is its final component.
pub proof fn lemma_split_gives_last_component(p: Seq<char>, j: int)
    requires
        splits_name_at(p, j),
    ensures
        last_component(p) == p.subrange(j, p.len() as int),
    decreases p.len(),
{
    if p.len() == 0 {
        assert(p.subrange(0, 0) =~= p);
    } else if j == p.len() {
        assert(p.last() == '/');
        assert(p.subrange(j, p.len() as int) =~= Seq::<char>::empty());
    } else {
        assert(p.last() != '/');
        let q = p.drop_last();
        assert(splits_name_at(q, j));
        lemma_split_gives_last_component(q, j);
        assert(q.subrange(j, q.len() as int).push(p.last()) =~= p.subrange(j, p.len() as int));
    }
}

/// The path relative to the root: empty for the root itself, the remainder
/// after `root/` for anything below it, and nothing for an unrelated path.
pub open spec fn rel_path_of(root: Seq<char>, p: Seq<char>) -> Option<Seq<char>> {
    if p == root {
        Some(Seq::<char>::empty())
    } else if root.len() < p.len() && p.subrange(0, root.len() as int) == root && p[root.len() as int]
        == '/' {
        Some(p.subrange(root.len() as int + 1, p.len() as int))
    } else {
        None
    }
}

/// Finds the position after the last `/` of the path, so that the rest of
/// the path is its final component.
fn name_split_index(p: &str, p_len: usize) -> (j: usize)
    requires
        p_len == p@.len(),
    ensures
        splits_name_at(p@, j as int),
{
    let mut j: usize = p_len;
    while j > 0
        invariant
            p_len == p@.len(),
            j <= p_len,
            forall|k: int| j <= k < p_len ==> p@[k] != '/',
        decreases j,
    {
        if p.get_char(j - 1) == '/' {
            return j;
        }
        j = j - 1;
    }
    j
}

/// The final component of the path as a fresh string.
pub fn file_name(p: &str) -> (name: String)
    ensures
        name@ == last_component(p@),
{
    let p_len = p.unicode_len();
    let j = name_split_index(p, p_len);
    proof {
        lemma_split_gives_last_component(p@, j as int);
    }
    let name_slice = p.substring_char(j, p_len);
    String::from_str(name_slice)
}

/// Compares two strings character by character.
fn str_equal(a: &str, b: &str) -> (r: bool)
    ensures
        r == (a@ == b@),
{
    let a_len = a.unicode_len();
    let b_len = b.unicode_len();
    if a_len != b_len {
        return false;
    }
    let mut i: usize = 0;
    while i < a_len
        invariant
            a_len == a@.len(),
            b_len == b@.len(),
            a_len == b_len,
            i <= a_len,
            forall|k: int| 0 <= k < i ==> a@[k] == b@[k],
        decreases a_len - i,
    {
        if a.get_char(i) != b.get_char(i) {
            return false;
        }
        i = i + 1;
    }
    proof {
        assert(a@ =~= b@);
    }
    true
}

/// The path relative to the root as a fresh string, or `None` when the path
/// does not lie under the root.
pub fn relative_path(root: &str, p: &str) -> (rel: Option<String>)
    ensures
        rel is Some <==> rel_path_of(root@, p@) is Some,
        rel is Some ==> rel.unwrap()@ == rel_path_of(root@, p@).unwrap(),
{
    let root_len = root.unicode_len();
    let p_len = p.unicode_len();
    if root_len == p_len && str_equal(root, p) {
        return Some(String::new());
    }
    if root_len < p_len {
        let prefix = p.substring_char(0, root_len);
        if str_equal(prefix, root) && p.get_char(root_len) == '/' {
            let rest = p.substring_char(root_len + 1, p_len);
            return Some(String::from_str(rest));
        }
    }
    assert(rel_path_of(root@, p@) is None);
    None
}

} // verus!
