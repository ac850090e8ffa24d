//! The entry type of the lenses that describe their results.

use vstd::prelude::*;

verus! {

/// One result of a search, with a description shown when it is selected.
#[derive(Clone, Debug)]
pub struct Entry {
    /// A unique identifier (often a path, URL, or internal id).
    pub id: String,
    /// The main text shown in the result list.
    pub title: String,
    /// A single icon character.
    pub icon: String,
    /// Shown in the bottom panel when the entry is selected.
    pub description: String,
}

/// The contents of an [`Entry`].
pub struct EntryModel {
    pub id: Seq<char>,
    pub title: Seq<char>,
    pub icon: Seq<char>,
    pub description: Seq<char>,
}

impl View for Entry {
    type V = EntryModel;

    open spec fn view(&self) -> EntryModel {
        EntryModel {
            id: self.id@,
            title: self.title@,
            icon: self.icon@,
            description: self.description@,
        }
    }
}

impl DeepView for Entry {
    type V = EntryModel;

    open spec fn deep_view(&self) -> EntryModel {
        self@
    }
}

} // verus!
