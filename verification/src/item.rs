//! The entry shown to the user: a name, the absolute path the walk
//! produced, and the path relative to the chosen root.

use vstd::prelude::*;

use crate::paths::{file_name, last_component, rel_path_of, relative_path};

verus! {

/// One displayed entry. Immutable once constructed; every scan builds a
/// fresh list of these.
#[derive(Clone, Debug, PartialEq)]
pub struct FileItem {
    /// The final component of the entry's path.
    pub name: String,
    /// The entry's full path as the walk produced it.
    pub absolute_path: String,
    /// The path from the root to the entry, with the root prefix stripped;
    /// the name alone for a direct child of the root.
    pub relative_path: String,
}

/// The mathematical view of a `FileItem`: its three fields as character
/// sequences.
pub ghost struct ItemModel {
    pub name: Seq<char>,
    pub absolute_path: Seq<char>,
    pub relative_path: Seq<char>,
}

impl View for FileItem {
    type V = ItemModel;

    open spec fn view(&self) -> ItemModel {
        ItemModel {
            name: self.name@,
            absolute_path: self.absolute_path@,
            relative_path: self.relative_path@,
        }
    }
}

/// The entry that a walked path contributes, before filtering: its final
/// component as the name and its path relative to the root. A path with an
/// empty final component or one that does not lie under the root
/// contributes nothing.
pub open spec fn item_of(root: Seq<char>, p: Seq<char>) -> Option<ItemModel> {
    let name = last_component(p);
    if name.len() == 0 {
        None
    } else {
        match rel_path_of(root, p) {
            Some(rel) => Some(ItemModel { name: name, absolute_path: p, relative_path: rel }),
            None => None,
        }
    }
}

/// Builds the displayed entry for one walked path, or `None` when the path
/// contributes nothing.
pub fn make_file_item(root: &str, p: &str) -> (res: Option<FileItem>)
    ensures
        res is Some <==> item_of(root@, p@) is Some,
        res is Some ==> res.unwrap()@ == item_of(root@, p@).unwrap(),
{
    let name = file_name(p);
    if name.unicode_len() == 0 {
        return None;
    }
    match relative_path(root, p) {
        Some(rel) => Some(
            FileItem {
                name: name,
                absolute_path: String::from_str(p),
                relative_path: rel,
            },
        ),
        None => None,
    }
}

} // verus!
