//! Rule-based phonetic transliteration from Roman keystrokes to Bengali
//! script, with what a prescription editor builds around it.
//!
//! - [`rules`], [`table`], [`model`]: the rule table and its mathematical
//!   model.
//! - [`engine`]: conversion, a greedy longest-match scan over the table.
//! - [`laws`]: what holds of every conversion.
//! - [`definition`], [`document`]: loading a table from a rule definition,
//!   given as plain data or as a JSON text.
//! - [`entry`]: the live input adapter of a text entry.
//! - [`matcher`], [`search`]: fuzzy lookup of names and the boxes that list
//!   the matches.
//! - [`prescription`]: the list of prescribed medicines.
//! - [`text`]: characters and strings.

pub mod definition;
pub mod document;
pub mod engine;
pub mod entry;
pub mod laws;
pub mod matcher;
pub mod model;
pub mod prescription;
pub mod rules;
pub mod search;
pub mod table;
pub mod text;
