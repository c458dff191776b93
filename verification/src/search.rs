//! The decisions of the two lookup boxes: a search box, which lists the
//! candidates that match what was typed, and a dropdown box, which lists
//! all candidates with the matching ones first.
//!
//! The boxes decide; the host shows and hides the list and moves the
//! selection as it is told.

use vstd::prelude::*;
use vstd::string::*;
use crate::entry::Propagation;
use crate::matcher::{listed, listing_scores, match_scores, rank_candidates, rank_matches, ranking};
use crate::text::same_text;

verus! {

/// A key as the list of a lookup box sees it.
#[derive(Clone, Copy, Debug, PartialEq, Eq, Structural)]
pub enum ListKey {
    Up,
    Down,
    Escape,
    Other,
}

/// What the host does with the list after the entry's text changed.
#[derive(Debug)]
pub enum ListUpdate {
    /// Nothing.
    Keep,
    /// Hide the list.
    Hide,
    /// Show the list with these names.
    Show(Vec<String>),
}

/// What the host does after a key press in the entry of a lookup box.
#[derive(Clone, Copy, Debug, PartialEq, Eq, Structural)]
pub struct KeyResponse {
    pub propagation: Propagation,
    /// Whether the list is to be hidden.
    pub hide: bool,
}

/// Whether `expected` announces exactly the text `current`.
pub open spec fn announces(expected: Option<String>, current: Seq<char>) -> bool {
    expected is Some && expected->0@ == current
}

/// The item that is selected after a key was released: the one before
/// `position` for `Up`, the one after it for `Down`, around the ends of a
/// list of `total_items`; `None` for any other key.
pub open spec fn selection_model(key: ListKey, position: int, total_items: int) -> Option<int> {
    match key {
        ListKey::Up => Some((position + total_items - 1) % total_items),
        ListKey::Down => Some((position + 1) % total_items),
        _ => None,
    }
}

/// The item to select after `key` was released while the list was shown.
pub fn selection_after(key: ListKey, position: u32, total_items: u32) -> (selected: Option<u32>)
    requires
        key == ListKey::Up ==> total_items > 0 && position + total_items <= u32::MAX,
        key == ListKey::Down ==> total_items > 0 && position < u32::MAX,
    ensures
        match selected {
            Some(item) => selection_model(key, position as int, total_items as int) == Some(
                item as int,
            ),
            None => selection_model(key, position as int, total_items as int) is None,
        },
{
    match key {
        ListKey::Up => Some((position + total_items - 1) % total_items),
        ListKey::Down => Some((position + 1) % total_items),
        _ => None,
    }
}

/// Whether `expected` announces exactly the text `current`.
fn is_announced(expected: &Option<String>, current: &str) -> (announced: bool)
    ensures
        announced == announces(*expected, current@),
{
    match expected {
        Some(text) => same_text(text.as_str(), current),
        None => false,
    }
}

/// The state of a search box.
#[derive(Debug)]
pub struct SearchBox {
    /// The candidates.
    pub data: Vec<String>,
    /// The text that the box itself has put into the entry, until the entry
    /// reports it.
    pub expected_programmatic_change: Option<String>,
}

impl SearchBox {
    /// A search box without candidates.
    pub fn new() -> (search: SearchBox)
        ensures
            search.data@.len() == 0,
            search.expected_programmatic_change is None,
    {
        SearchBox { data: Vec::new(), expected_programmatic_change: None }
    }

    /// Replaces the candidates.
    pub fn initialize(&mut self, data: Vec<String>)
        ensures
            final(self).data == data,
            final(self).expected_programmatic_change == old(self).expected_programmatic_change,
    {
        self.data = data;
    }

    /// Notes that the host puts `text` into the entry, so that the change
    /// which the entry then reports starts no search.
    pub fn update_entry_text(&mut self, text: &str)
        ensures
            announces(final(self).expected_programmatic_change, text@),
            final(self).data == old(self).data,
    {
        self.expected_programmatic_change = Some(String::from_str(text));
    }

    /// Takes a change of the entry's text. A change that was announced is
    /// consumed. Otherwise an empty text hides the list, and any other text
    /// shows the candidates that match it, best first, or hides the list
    /// where none matches.
    pub fn handle_entry_search_changed(&mut self, current_text: &str) -> (update: ListUpdate)
        ensures
            final(self).data == old(self).data,
            announces(old(self).expected_programmatic_change, current_text@) ==> update is Keep
                && final(self).expected_programmatic_change is None,
            !announces(old(self).expected_programmatic_change, current_text@) ==> {
                let names = listed(old(self).data@, ranking(match_scores(old(self).data@, current_text@)));
                &&& final(self).expected_programmatic_change == old(self).expected_programmatic_change
                &&& current_text@.len() == 0 || names.len() == 0 ==> update is Hide
                &&& current_text@.len() > 0 && names.len() > 0 ==> update is Show && update->Show_0@
                    == names
            },
    {
        if is_announced(&self.expected_programmatic_change, current_text) {
            self.expected_programmatic_change = None;
            return ListUpdate::Keep;
        }
        if current_text.is_empty() {
            return ListUpdate::Hide;
        }
        let names = rank_matches(&self.data, current_text);
        if names.len() == 0 {
            return ListUpdate::Hide;
        }
        ListUpdate::Show(names)
    }

    /// Takes a key press in the entry: while the list is shown, `Up` and
    /// `Down` belong to the list and `Escape` hides it.
    pub fn handle_entry_key_pressed(list_shown: bool, key: ListKey) -> (response: KeyResponse)
        ensures
            response.propagation == if list_shown && (key == ListKey::Up || key == ListKey::Down) {
                Propagation::Stop
            } else {
                Propagation::Proceed
            },
            response.hide == (list_shown && key == ListKey::Escape),
    {
        if list_shown {
            match key {
                ListKey::Up | ListKey::Down => {
                    return KeyResponse { propagation: Propagation::Stop, hide: false };
                },
                ListKey::Escape => {
                    return KeyResponse { propagation: Propagation::Proceed, hide: true };
                },
                _ => {},
            }
        }
        KeyResponse { propagation: Propagation::Proceed, hide: false }
    }
}

/// The state of a dropdown box.
#[derive(Debug)]
pub struct DropdownBox {
    /// The text that the box itself has put into the entry, until the entry
    /// reports it.
    pub expected_programmatic_change: Option<String>,
}

impl DropdownBox {
    /// A dropdown box that has announced no text.
    pub fn new() -> (dropdown: DropdownBox)
        ensures
            dropdown.expected_programmatic_change is None,
    {
        DropdownBox { expected_programmatic_change: None }
    }

    /// Notes that the host puts `text` into the entry, so that the change
    /// which the entry then reports does not open the list.
    pub fn update_entry_text(&mut self, text: String)
        ensures
            final(self).expected_programmatic_change == Some(text),
    {
        self.expected_programmatic_change = Some(text);
    }

    /// Takes a change of the entry's text. A change that was announced is
    /// consumed. Otherwise an empty text hides the list, and any other text
    /// shows all candidates, those that match it first; without candidates
    /// the list stays as it is.
    pub fn handle_entry_changed(&mut self, current_text: &str, data: &Vec<String>) -> (update: ListUpdate)
        ensures
            announces(old(self).expected_programmatic_change, current_text@) ==> update is Keep
                && final(self).expected_programmatic_change is None,
            !announces(old(self).expected_programmatic_change, current_text@) ==> {
                &&& final(self).expected_programmatic_change == old(self).expected_programmatic_change
                &&& current_text@.len() == 0 ==> update is Hide
                &&& current_text@.len() > 0 && data@.len() == 0 ==> update is Keep
                &&& current_text@.len() > 0 && data@.len() > 0 ==> update is Show && update->Show_0@
                    == listed(data@, ranking(listing_scores(data@, current_text@)))
            },
    {
        if is_announced(&self.expected_programmatic_change, current_text) {
            self.expected_programmatic_change = None;
            return ListUpdate::Keep;
        }
        if current_text.is_empty() {
            return ListUpdate::Hide;
        }
        let names = rank_candidates(data, current_text);
        if names.len() == 0 {
            return ListUpdate::Keep;
        }
        ListUpdate::Show(names)
    }

    /// Takes a key press in the entry: while the list is shown, `Up` and
    /// `Down` belong to the list.
    pub fn handle_entry_key_pressed(list_shown: bool, key: ListKey) -> (propagation: Propagation)
        ensures
            propagation == if list_shown && (key == ListKey::Up || key == ListKey::Down) {
                Propagation::Stop
            } else {
                Propagation::Proceed
            },
    {
        if list_shown {
            match key {
                ListKey::Up | ListKey::Down => {
                    return Propagation::Stop;
                },
                _ => {
                    return Propagation::Proceed;
                },
            }
        }
        Propagation::Proceed
    }

    /// Takes a click on the entry's icon: it toggles the list. Returns the
    /// name of the icon to show and whether the list is to be shown.
    pub fn handle_entry_icon_release(list_shown: bool) -> (toggled: (&'static str, bool))
        ensures
            toggled.1 == !list_shown,
            toggled.0@ == if list_shown {
                "pan-down-symbolic"@
            } else {
                "pan-up-symbolic"@
            },
    {
        if list_shown {
            ("pan-down-symbolic", false)
        } else {
            ("pan-up-symbolic", true)
        }
    }
}

} // verus!
