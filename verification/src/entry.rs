//! The live input adapter of a text entry: it collects the keystrokes of
//! the word being typed and, in Bangla mode, replaces the entry's text by
//! the text before that word followed by the word's transliteration.
//!
//! The adapter decides; the host performs: it hands over each key press
//! with what the entry shows, and applies the outcome.

use vstd::prelude::*;
use vstd::string::*;
use crate::model::TableModel;
use crate::table::AvroPhonetic;
use crate::text::{pop_char, push_char};

verus! {

/// The modifier state of a key press.
#[derive(Clone, Copy, Debug, PartialEq, Eq, Structural)]
pub enum Modifiers {
    /// Control alone.
    Control,
    /// Alt alone.
    Alt,
    /// Super alone.
    Super,
    /// Shift alone.
    Shift,
    /// No modifier, or any other combination.
    Other,
}

/// The key of a key press.
#[derive(Clone, Copy, Debug, PartialEq, Eq, Structural)]
pub enum Key {
    BackSpace,
    Tab,
    Delete,
    Space,
    Left,
    Right,
    /// Any other key that stands for a character.
    Character(char),
    /// Any other key that stands for none.
    Other,
}

/// Whether the host goes on to handle the key press itself.
#[derive(Clone, Copy, Debug, PartialEq, Eq, Structural)]
pub enum Propagation {
    Proceed,
    Stop,
}

/// What the host does after a key press.
#[derive(Debug)]
pub struct KeyOutcome {
    pub propagation: Propagation,
    /// Whether the input mode was switched, so that the mode icon is to be
    /// shown anew.
    pub mode_changed: bool,
    /// The text that the entry is to show, with the cursor at its end.
    pub text: Option<String>,
}

/// The model of a [`KeyOutcome`].
pub struct OutcomeModel {
    pub propagation: Propagation,
    pub mode_changed: bool,
    pub text: Option<Seq<char>>,
}

impl View for KeyOutcome {
    type V = OutcomeModel;

    open spec fn view(&self) -> OutcomeModel {
        OutcomeModel {
            propagation: self.propagation,
            mode_changed: self.mode_changed,
            text: match self.text {
                Some(text) => Some(text@),
                None => None,
            },
        }
    }
}

/// The state of the adapter.
#[derive(Debug)]
pub struct AvroPhoneticEntry {
    /// Whether keystrokes are transliterated.
    pub is_bangla_mode: bool,
    /// The keystrokes of the word being typed.
    pub english_buffer: String,
    /// The entry's text as it was when the word was begun.
    pub processed_buffer: String,
}

/// The model of an [`AvroPhoneticEntry`].
pub struct EntryModel {
    pub is_bangla_mode: bool,
    pub english_buffer: Seq<char>,
    pub processed_buffer: Seq<char>,
}

impl View for AvroPhoneticEntry {
    type V = EntryModel;

    open spec fn view(&self) -> EntryModel {
        EntryModel {
            is_bangla_mode: self.is_bangla_mode,
            english_buffer: self.english_buffer@,
            processed_buffer: self.processed_buffer@,
        }
    }
}

/// The outcome that leaves the key press to the host.
pub open spec fn proceed() -> OutcomeModel {
    OutcomeModel { propagation: Propagation::Proceed, mode_changed: false, text: None }
}

impl EntryModel {
    /// The state after a key was taken into the buffer.
    pub open spec fn typed(self, key: Key, entry_text: Seq<char>) -> EntryModel {
        match key {
            Key::BackSpace => if self.english_buffer.len() > 0 {
                EntryModel { english_buffer: self.english_buffer.drop_last(), ..self }
            } else {
                self
            },
            Key::Space => EntryModel { english_buffer: Seq::empty(), ..self },
            Key::Character(c) => EntryModel {
                english_buffer: self.english_buffer.push(c),
                processed_buffer: if self.english_buffer.len() == 0 {
                    entry_text
                } else {
                    self.processed_buffer
                },
                ..self
            },
            _ => self,
        }
    }

    /// The outcome in a given state: in Bangla mode with a word under way,
    /// the entry shows the text before the word and then the word's
    /// transliteration.
    pub open spec fn shown(self, table: TableModel) -> OutcomeModel {
        if self.is_bangla_mode && self.english_buffer.len() > 0 {
            OutcomeModel {
                propagation: Propagation::Stop,
                mode_changed: false,
                text: Some(self.processed_buffer + table.convert(self.english_buffer)),
            }
        } else {
            proceed()
        }
    }

    /// The state and the outcome after a key press, given whether the entry
    /// has a selection that is not empty and the text that it shows.
    pub open spec fn after_key(
        self,
        table: TableModel,
        key: Key,
        modifiers: Modifiers,
        has_selection: bool,
        entry_text: Seq<char>,
    ) -> (EntryModel, OutcomeModel) {
        if modifiers == Modifiers::Control || modifiers == Modifiers::Alt || modifiers
            == Modifiers::Super {
            let switch = modifiers == Modifiers::Control && key == Key::Character('m');
            (
                EntryModel {
                    is_bangla_mode: if switch {
                        !self.is_bangla_mode
                    } else {
                        self.is_bangla_mode
                    },
                    english_buffer: Seq::empty(),
                    ..self
                },
                OutcomeModel { mode_changed: switch, ..proceed() },
            )
        } else if modifiers == Modifiers::Shift && (key == Key::Left || key == Key::Right) {
            (self, proceed())
        } else if key == Key::BackSpace && self.english_buffer.len() > 0 && has_selection {
            (EntryModel { english_buffer: Seq::empty(), ..self }, proceed())
        } else if key == Key::Tab {
            (self, proceed())
        } else {
            (self.typed(key, entry_text), self.typed(key, entry_text).shown(table))
        }
    }
}

/// The icon name for the theme in use: `icon_name` itself, with `-dark`
/// appended where the theme is dark.
pub fn get_theme_aware_icon_name(icon_name: &str, dark: bool) -> (name: String)
    ensures
        name@ == if dark {
            icon_name@ + "-dark"@
        } else {
            icon_name@
        },
{
    let mut output = String::from_str(icon_name);
    if dark {
        output.append("-dark");
    }
    output
}

impl AvroPhoneticEntry {
    /// An adapter in English mode with nothing typed.
    pub fn new() -> (entry: AvroPhoneticEntry)
        ensures
            entry@ == (EntryModel {
                is_bangla_mode: false,
                english_buffer: Seq::empty(),
                processed_buffer: Seq::empty(),
            }),
    {
        AvroPhoneticEntry {
            is_bangla_mode: false,
            english_buffer: String::new(),
            processed_buffer: String::new(),
        }
    }

    /// Forgets the word being typed and the text before it; the host
    /// empties the entry.
    pub fn clear(&mut self)
        ensures
            final(self)@ == (EntryModel {
                english_buffer: Seq::empty(),
                processed_buffer: Seq::empty(),
                ..old(self)@
            }),
    {
        self.english_buffer = String::new();
        self.processed_buffer = String::new();
    }

    /// The name of the icon that shows the input mode.
    pub fn mode_icon(&self) -> (name: &'static str)
        ensures
            name@ == if self.is_bangla_mode {
                "bn"@
            } else {
                "en"@
            },
    {
        if self.is_bangla_mode {
            "bn"
        } else {
            "en"
        }
    }

    /// Takes one key press. `has_selection` says whether the entry has a
    /// selection that is not empty, `entry_text` is the text that it shows.
    pub fn handle_key_press(
        &mut self,
        table: &AvroPhonetic,
        key: Key,
        modifiers: Modifiers,
        has_selection: bool,
        entry_text: &str,
    ) -> (outcome: KeyOutcome)
        ensures
            (final(self)@, outcome@) == old(self)@.after_key(
                table@,
                key,
                modifiers,
                has_selection,
                entry_text@,
            ),
    {
        let proceed = KeyOutcome { propagation: Propagation::Proceed, mode_changed: false, text: None };
        match modifiers {
            Modifiers::Control | Modifiers::Alt | Modifiers::Super => {
                self.english_buffer = String::new();
                let switch = modifiers == Modifiers::Control && key == Key::Character('m');
                if switch {
                    self.is_bangla_mode = !self.is_bangla_mode;
                }
                return KeyOutcome { propagation: Propagation::Proceed, mode_changed: switch, text: None };
            },
            Modifiers::Shift => {
                if key == Key::Left || key == Key::Right {
                    return proceed;
                }
            },
            Modifiers::Other => {},
        }
        match key {
            Key::BackSpace => {
                if !self.english_buffer.as_str().is_empty() {
                    if has_selection {
                        self.english_buffer = String::new();
                        return proceed;
                    }
                    let _ = pop_char(&mut self.english_buffer);
                }
            },
            Key::Tab => {
                return proceed;
            },
            Key::Space => {
                self.english_buffer = String::new();
            },
            Key::Character(c) => {
                if self.english_buffer.as_str().is_empty() {
                    self.processed_buffer = String::from_str(entry_text);
                }
                push_char(&mut self.english_buffer, c);
            },
            _ => {},
        }
        if self.is_bangla_mode && !self.english_buffer.as_str().is_empty() {
            let mut text = self.processed_buffer.clone();
            let converted = table.convert(self.english_buffer.as_str());
            text.append(converted.as_str());
            return KeyOutcome { propagation: Propagation::Stop, mode_changed: false, text: Some(text) };
        }
        proceed
    }
}

} // verus!
