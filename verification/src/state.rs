//! The search state behind the shell: the chosen root, the current query,
//! and whether searching is enabled. Searching becomes possible only once
//! a root has been chosen.

use vstd::prelude::*;

use crate::item::FileItem;
use crate::scan::{entries_view, items_view, scan_entries, scan_spec};

verus! {

/// The state the shell keeps between user actions.
pub struct SearchState {
    /// The chosen root directory, once one has been picked.
    pub root: Option<String>,
    /// The query typed so far; empty matches everything.
    pub query: String,
    /// Whether a search may run; true exactly once a root is chosen.
    pub enabled: bool,
}

impl SearchState {
    /// A well-formed state never allows a search without a root.
    pub open spec fn wf(&self) -> bool {
        self.enabled ==> self.root is Some
    }

    /// The initial state: no root, empty query, searching disabled.
    pub fn new() -> (s: SearchState)
        ensures
            s.wf(),
            s.root is None,
            !s.enabled,
            s.query@ == Seq::<char>::empty(),
    {
        SearchState { root: None, query: String::new(), enabled: false }
    }

    /// Records the directory the user picked and enables searching.
    pub fn pick_root(&mut self, root: String)
        ensures
            final(self).wf(),
            final(self).root == Some(root),
            final(self).enabled,
            final(self).query == old(self).query,
    {
        self.root = Some(root);
        self.enabled = true;
    }

    /// Replaces the query; the root and the enabling are untouched.
    pub fn set_query(&mut self, query: String)
        ensures
            final(self).root == old(self).root,
            final(self).enabled == old(self).enabled,
            final(self).query == query,
            old(self).wf() ==> final(self).wf(),
    {
        self.query = query;
    }

    /// One search over the paths the walk of the root produced: the scan of
    /// those paths under the current query.
    pub fn run_search(&self, entries: &Vec<String>) -> (res: Vec<FileItem>)
        requires
            self.wf(),
            self.enabled,
        ensures
            items_view(res@) == scan_spec(
                self.root.unwrap()@,
                entries_view(entries@),
                self.query@,
            ),
    {
        let root = self.root.as_ref().unwrap();
        scan_entries(root.as_str(), entries, self.query.as_str())
    }
}

} // verus!
