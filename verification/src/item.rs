use vstd::prelude::*;

verus! {

/// One changeable path shown in a section, with its expansion flag.
#[derive(Debug)]
pub struct Item {
    pub path: String,
    pub expanded: bool,
}

/// The mathematical model of an `Item`: its path as a sequence of
/// characters and its expansion flag.
pub ghost struct ItemModel {
    pub path: Seq<char>,
    pub expanded: bool,
}

impl View for Item {
    type V = ItemModel;

    open spec fn view(&self) -> ItemModel {
        ItemModel { path: self.path@, expanded: self.expanded }
    }
}

impl Item {
    /// A fresh, collapsed entry for the given path.
    pub fn new(path: &str) -> (r: Self)
        ensures
            r@.path == path@,
            !r@.expanded,
    {
        Item { path: path.to_owned(), expanded: false }
    }
}

} // verus!
