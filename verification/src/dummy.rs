//! A lens for trying the interface out: one numbered entry per byte of the query.

use vstd::prelude::*;
use crate::{entry_model, Entry, EnterAction, EntryModel};
use crate::text::{concatenated, decimal, decimal_string, owned};

verus! {

/// The lens that numbers the bytes of the query.
pub struct Dummy;

/// The action of a dummy entry: it does nothing.
pub fn function() {
}

/// The `k`-th dummy entry, counting from one.
pub open spec fn dummy_entry(k: nat) -> EntryModel {
    entry_model(
        "entry no."@ + decimal(k),
        "entry no. "@ + decimal(k),
        seq![],
        seq![],
        EnterAction::Nothing,
    )
}

/// The entries of the dummy lens for a query of `n` bytes: entries one to `n`.
pub open spec fn dummy_entries(n: nat) -> Seq<EntryModel> {
    Seq::new(n, |i: int| dummy_entry((i + 1) as nat))
}

impl Dummy {
    /// The lens's name, shown in the tab bar and used as a query prefix.
    pub fn name(&self) -> (r: String)
        ensures
            r@ == "dummy"@,
    {
        owned("dummy")
    }

    /// One entry for each byte of `query` in UTF-8 (its `len`), numbered from one.
    pub fn search(&self, query: &str) -> (r: Vec<Entry>)
        ensures
            r.deep_view() == dummy_entries(query.len() as nat),
    {
        let n = query.len();
        let mut r: Vec<Entry> = Vec::new();
        let mut k: usize = 0;
        while k < n
            invariant
                n == query.len(),
                k <= n,
                r.deep_view() == dummy_entries(k as nat),
            decreases n - k,
        {
            k = k + 1;
            let number = decimal_string(k as u64);
            let ghost before = r.deep_view();
            r.push(
                Entry {
                    id: concatenated("entry no.", number.as_str()),
                    title: concatenated("entry no. ", number.as_str()),
                    icon: String::new(),
                    meta: String::new(),
                    enter: EnterAction::Nothing,
                },
            );
            assert(r.deep_view() =~= dummy_entries(k as nat)) by {
                assert(r.deep_view() == before.push(dummy_entry(k as nat)));
            }
        }
        r
    }
}

/// A query of `n` bytes gives `n` entries, the `k`-th (from one) titled
/// `entry no. k`, and none of them does anything.
pub proof fn law_one_entry_per_byte(n: nat)
    ensures
        dummy_entries(n).len() == n,
        forall|k: int|
            0 <= k < n ==> #[trigger] dummy_entries(n)[k].title == "entry no. "@ + decimal((k + 1) as nat)
                && dummy_entries(n)[k].enter == EnterAction::Nothing,
{
}

} // verus!
