//! The power lens: shutdown, reboot and suspend through `systemctl`.

use vstd::prelude::*;
use crate::{entry_model, Entry, EnterAction, EntryModel};
use crate::text::owned;

verus! {

/// The lens that offers the machine's power actions.
pub struct Power;

/// The entries of the power lens, whatever the query.
pub open spec fn power_entries() -> Seq<EntryModel> {
    seq![
        entry_model("poweroff"@, "Shutdown"@, "\u{23fb}"@, "poweroff"@, EnterAction::Systemctl),
        entry_model("reboot"@, "Reboot"@, "\u{f01e}"@, "reboot"@, EnterAction::Systemctl),
        entry_model("suspend"@, "Suspend"@, "\u{23fe}"@, "suspend"@, EnterAction::Systemctl),
    ]
}

/// The command that carries out a power entry: `systemctl` with the entry's `meta`.
pub open spec fn systemctl_command(meta: Seq<char>) -> Seq<Seq<char>> {
    seq!["systemctl"@, meta]
}

impl Power {
    /// The lens's name, shown in the tab bar and used as a query prefix.
    pub fn name(&self) -> (r: String)
        ensures
            r@ == "power"@,
    {
        owned("power")
    }

    /// The three power entries; the query is not looked at.
    pub fn search(&self, query: String) -> (r: Vec<Entry>)
        ensures
            r.deep_view() == power_entries(),
    {
        let mut r: Vec<Entry> = Vec::new();
        r.push(
            Entry {
                id: owned("poweroff"),
                title: owned("Shutdown"),
                icon: owned("\u{23fb}"),
                meta: owned("poweroff"),
                enter: EnterAction::Systemctl,
            },
        );
        r.push(
            Entry {
                id: owned("reboot"),
                title: owned("Reboot"),
                icon: owned("\u{f01e}"),
                meta: owned("reboot"),
                enter: EnterAction::Systemctl,
            },
        );
        r.push(
            Entry {
                id: owned("suspend"),
                title: owned("Suspend"),
                icon: owned("\u{23fe}"),
                meta: owned("suspend"),
                enter: EnterAction::Systemctl,
            },
        );
        assert(r.deep_view() =~= power_entries());
        r
    }
}

/// The program and arguments that carry out `entry`'s power action.
pub fn systemctl_argv(entry: &Entry) -> (r: Vec<String>)
    ensures
        r.deep_view() == systemctl_command(entry.meta@),
{
    let mut r: Vec<String> = Vec::new();
    r.push(owned("systemctl"));
    r.push(entry.meta.clone());
    assert(r.deep_view() =~= systemctl_command(entry.meta@));
    r
}

} // verus!
