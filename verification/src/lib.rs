//! A verified file-finder core: given the absolute paths that a recursive
//! directory walk produced, build the list of entries to display, each with
//! its name and its path relative to the chosen root, filtered by a
//! case-sensitive substring query on the name.

use vstd::prelude::*;

pub mod item;
pub mod laws;
pub mod paths;
pub mod scan;
pub mod state;
pub mod text;

verus! {

} // verus!
