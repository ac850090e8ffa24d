//! The calculator lens: shows the value of the query as an arithmetic expression.

use vstd::prelude::*;
use crate::{entry_model, Entry, EnterAction, EntryModel};
use crate::text::owned;

verus! {

/// The lens that evaluates the query.
pub struct Calc;

/// The entries of the calculator lens: for a non-empty query, one entry showing `value`,
/// the query's value as text; none for an empty query.
pub open spec fn calc_entries(query: Seq<char>, value: Seq<char>) -> Seq<EntryModel> {
    if query.len() == 0 {
        seq![]
    } else {
        seq![entry_model("calc_result"@, value, "\u{f1ec}"@, value, EnterAction::CopyIcon)]
    }
}

impl Calc {
    /// The lens's name, shown in the tab bar and used as a query prefix.
    pub fn name(&self) -> (r: String)
        ensures
            r@ == "calc"@,
    {
        owned("calc")
    }

    /// The result entry for `query`, whose value (evaluated in floating point, outside the
    /// library) reads `value`; nothing when the query is empty.
    pub fn search(&self, query: String, value: String) -> (r: Vec<Entry>)
        ensures
            r.deep_view() == calc_entries(query@, value@),
    {
        let mut r: Vec<Entry> = Vec::new();
        if !query.as_str().is_empty() {
            r.push(
                Entry {
                    id: owned("calc_result"),
                    title: value.clone(),
                    icon: owned("\u{f1ec}"),
                    meta: value,
                    enter: EnterAction::CopyIcon,
                },
            );
        }
        assert(r.deep_view() =~= calc_entries(query@, value@));
        r
    }
}

} // verus!
