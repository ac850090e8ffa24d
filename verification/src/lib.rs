//! A keyboard-driven launcher's search logic: each lens turns a query into entries, and
//! each entry says what picking it does.

use vstd::prelude::*;

pub mod applications;
pub mod apps;
pub mod calc;
pub mod clipboard;
pub mod copy_tool;
pub mod dummy;
pub mod launcher;
pub mod lens;
pub mod nerdfont;
pub mod power;
pub mod process;
pub mod text;
pub mod web;

verus! {

/// What picking an entry does; the effect itself is carried out by the program around
/// the library.
#[derive(Clone, Copy, Debug, PartialEq, Eq, Structural)]
pub enum EnterAction {
    /// Run `meta` as a shell command, detached from the terminal.
    Launch,
    /// Copy `icon` with the first clipboard tool that can be started.
    CopyIcon,
    /// Hand `meta` to `wl-copy`, replacing the running program.
    CopyMeta,
    /// Do nothing.
    Nothing,
    /// Run `systemctl` with `meta` as its argument, detached from the terminal.
    Systemctl,
    /// Kill the process whose id `meta` holds.
    Kill,
    /// Open the configured web search for `meta` with `xdg-open`.
    OpenWebSearch,
}

/// One result of a search.
#[derive(Clone, Debug)]
pub struct Entry {
    /// A unique identifier.
    pub id: String,
    /// The text shown in the result list.
    pub title: String,
    /// A single icon character, or nothing.
    pub icon: String,
    /// The data that the enter action works on.
    pub meta: String,
    /// What picking the entry does.
    pub enter: EnterAction,
}

/// The contents of an [`Entry`].
pub struct EntryModel {
    pub id: Seq<char>,
    pub title: Seq<char>,
    pub icon: Seq<char>,
    pub meta: Seq<char>,
    pub enter: EnterAction,
}

impl View for Entry {
    type V = EntryModel;

    open spec fn view(&self) -> EntryModel {
        EntryModel {
            id: self.id@,
            title: self.title@,
            icon: self.icon@,
            meta: self.meta@,
            enter: self.enter,
        }
    }
}

impl DeepView for Entry {
    type V = EntryModel;

    open spec fn deep_view(&self) -> EntryModel {
        self@
    }
}

/// The entry with the given contents.
pub open spec fn entry_model(
    id: Seq<char>,
    title: Seq<char>,
    icon: Seq<char>,
    meta: Seq<char>,
    enter: EnterAction,
) -> EntryModel {
    EntryModel { id, title, icon, meta, enter }
}

} // verus!
