//! Reading a rule definition from a JSON document.
//!
//! The document is parsed by the `json` crate. What a value of that crate
//! holds is given a model, the crate's accessors are taken to return what
//! the model says, and the reader is proved to return the definition that
//! the model describes.

use vstd::prelude::*;
use vstd::string::*;
use crate::definition::{
    match_definition_models, pattern_definition_models, rule_definition_models, loaded, ConfigError,
    MatchDefinition, MatchDefinitionModel, PatternDefinition, PatternDefinitionModel,
    RuleDefinition, RuleDefinitionModel, TableDefinition, TableDefinitionModel,
};
use crate::model::TableModel;
use crate::table::AvroPhonetic;
use crate::text::{digit_runs_within, has_digit_runs_within};

verus! {

/// A value of a JSON document, as the `json` crate holds it.
#[verifier::external_type_specification]
#[verifier::external_body]
pub struct ExJsonValue(json::JsonValue);

/// The error of the `json` crate's parser.
#[verifier::external_type_specification]
#[verifier::external_body]
pub struct ExJsonError(json::Error);

/// What a JSON value holds, as far as a rule definition is read from it.
pub enum JsonModel {
    Null,
    /// A string, with its characters.
    Text(Seq<char>),
    /// An array, with its members in order.
    Array(Seq<JsonModel>),
    /// An object, with its entries by key.
    Object(Map<Seq<char>, JsonModel>),
    /// A number or a boolean.
    Other,
}

impl JsonModel {
    /// The characters of a string, `None` for any other value.
    pub open spec fn text(self) -> Option<Seq<char>> {
        match self {
            JsonModel::Text(text) => Some(text),
            _ => None,
        }
    }

    /// The number of members of an array, 0 for any other value.
    pub open spec fn count(self) -> nat {
        match self {
            JsonModel::Array(items) => items.len(),
            _ => 0,
        }
    }

    /// The member of an array at `index`; `null` past its end and for any
    /// other value.
    pub open spec fn item(self, index: int) -> JsonModel {
        match self {
            JsonModel::Array(items) => if 0 <= index < items.len() {
                items[index]
            } else {
                JsonModel::Null
            },
            _ => JsonModel::Null,
        }
    }

    /// The entry of an object under `key`; `null` where it has none and
    /// for any other value.
    pub open spec fn field(self, key: Seq<char>) -> JsonModel {
        match self {
            JsonModel::Object(entries) => if entries.dom().contains(key) {
                entries[key]
            } else {
                JsonModel::Null
            },
            _ => JsonModel::Null,
        }
    }
}

/// What a value of the `json` crate holds.
pub uninterp spec fn json_model(value: json::JsonValue) -> JsonModel;

/// What the document holds that `json::parse` reads from a text, `None`
/// where it rejects the text.
pub uninterp spec fn json_document(text: Seq<char>) -> Option<JsonModel>;

/// The longest run of digits that a text may hold to be handed to the
/// parser.
pub const MAX_DIGIT_RUN: usize = 32767;

/// `json::parse`: the document read from `text`, or the parser's error.
/// Whether the text is accepted, and what the document holds, depend on the
/// text alone. The parser counts the digits of a number's fraction in a
/// 16-bit exponent without a check, so a text with a longer run of digits
/// is not handed to it.
#[verifier::external_body]
fn parse_document(text: &str) -> (result: Result<json::JsonValue, json::Error>)
    requires
        digit_runs_within(text@, MAX_DIGIT_RUN as nat),
    ensures
        match result {
            Ok(document) => json_document(text@) == Some(json_model(document)),
            Err(_) => json_document(text@) is None,
        },
{
    json::parse(text)
}

/// `JsonValue::as_str`: the contents of a string value, `None` for any
/// other value.
#[verifier::external_body]
fn text_of<'a>(value: &'a json::JsonValue) -> (result: Option<&'a str>)
    ensures
        match result {
            Some(text) => json_model(*value).text() == Some(text@),
            None => json_model(*value).text() is None,
        },
{
    value.as_str()
}

/// `JsonValue::is_array`: whether the value is an array.
#[verifier::external_body]
fn is_array(value: &json::JsonValue) -> (result: bool)
    ensures
        result == (json_model(*value) is Array),
{
    value.is_array()
}

/// `JsonValue::is_null`: whether the value is `null`.
#[verifier::external_body]
fn is_null(value: &json::JsonValue) -> (result: bool)
    ensures
        result == (json_model(*value) is Null),
{
    value.is_null()
}

/// `JsonValue::len`: the number of members of an array, 0 for a value that
/// is neither an array nor an object. Of an object it is the number of
/// entries, of which nothing is stated here.
#[verifier::external_body]
fn length_of(value: &json::JsonValue) -> (result: usize)
    ensures
        !(json_model(*value) is Object) ==> result == json_model(*value).count(),
{
    value.len()
}

/// Indexing a `JsonValue` by a number: the member at that index, a `null`
/// past the end of an array and for a value that is no array.
#[verifier::external_body]
fn item_of<'a>(value: &'a json::JsonValue, index: usize) -> (result: &'a json::JsonValue)
    ensures
        json_model(*result) == json_model(*value).item(index as int),
{
    &value[index]
}

/// Indexing a `JsonValue` by a key: the entry under that key, a `null`
/// where the object has none and for a value that is no object.
#[verifier::external_body]
fn field_of<'a>(value: &'a json::JsonValue, key: &str) -> (result: &'a json::JsonValue)
    ensures
        json_model(*result) == json_model(*value).field(key@),
{
    &value[key]
}

/// The text of a field that must be a string.
pub open spec fn required_text(value: JsonModel, key: Seq<char>) -> Result<Seq<char>, ConfigError> {
    match value.field(key).text() {
        Some(text) => Ok(text),
        None => Err(ConfigError::MissingField),
    }
}

/// The match definition that a value holds: `type` and `scope` are
/// required strings, `value` is optional.
pub open spec fn match_definition_in(value: JsonModel) -> Result<MatchDefinitionModel, ConfigError> {
    match required_text(value, "type"@) {
        Err(e) => Err(e),
        Ok(kind) => match required_text(value, "scope"@) {
            Err(e) => Err(e),
            Ok(scope) => Ok(
                MatchDefinitionModel { kind, scope, value: value.field("value"@).text() },
            ),
        },
    }
}

/// The match definitions held by the first `n` members of `list`, or the
/// error of the first member that holds none.
pub open spec fn match_definitions_in(list: JsonModel, n: int) -> Result<Seq<MatchDefinitionModel>, ConfigError>
    decreases n,
{
    if n <= 0 {
        Ok(Seq::empty())
    } else {
        match match_definitions_in(list, n - 1) {
            Err(e) => Err(e),
            Ok(done) => match match_definition_in(list.item(n - 1)) {
                Err(e) => Err(e),
                Ok(def) => Ok(done.push(def)),
            },
        }
    }
}

/// The rule definition that a value holds: `replace` is a required string,
/// `matches` a required array.
pub open spec fn rule_definition_in(value: JsonModel) -> Result<RuleDefinitionModel, ConfigError> {
    match required_text(value, "replace"@) {
        Err(e) => Err(e),
        Ok(replace) => {
            let list = value.field("matches"@);
            if !(list is Array) {
                Err(ConfigError::MissingField)
            } else {
                match match_definitions_in(list, list.count() as int) {
                    Err(e) => Err(e),
                    Ok(matches) => Ok(RuleDefinitionModel { replace, matches }),
                }
            }
        },
    }
}

/// The rule definitions held by the first `n` members of `list`, or the
/// error of the first member that holds none.
pub open spec fn rule_definitions_in(list: JsonModel, n: int) -> Result<Seq<RuleDefinitionModel>, ConfigError>
    decreases n,
{
    if n <= 0 {
        Ok(Seq::empty())
    } else {
        match rule_definitions_in(list, n - 1) {
            Err(e) => Err(e),
            Ok(done) => match rule_definition_in(list.item(n - 1)) {
                Err(e) => Err(e),
                Ok(def) => Ok(done.push(def)),
            },
        }
    }
}

/// The pattern definition that a value holds: `find` and `replace` are
/// required strings; `rules` is an array, or absent or `null` for a
/// pattern without rules.
pub open spec fn pattern_definition_in(value: JsonModel) -> Result<PatternDefinitionModel, ConfigError> {
    match required_text(value, "find"@) {
        Err(e) => Err(e),
        Ok(find) => match required_text(value, "replace"@) {
            Err(e) => Err(e),
            Ok(replace) => {
                let list = value.field("rules"@);
                if list is Null {
                    Ok(PatternDefinitionModel { find, replace, rules: Seq::empty() })
                } else if !(list is Array) {
                    Err(ConfigError::MissingField)
                } else {
                    match rule_definitions_in(list, list.count() as int) {
                        Err(e) => Err(e),
                        Ok(rules) => Ok(PatternDefinitionModel { find, replace, rules }),
                    }
                }
            },
        },
    }
}

/// The pattern definitions held by the first `n` members of `list`, or the
/// error of the first member that holds none.
pub open spec fn pattern_definitions_in(list: JsonModel, n: int) -> Result<Seq<PatternDefinitionModel>, ConfigError>
    decreases n,
{
    if n <= 0 {
        Ok(Seq::empty())
    } else {
        match pattern_definitions_in(list, n - 1) {
            Err(e) => Err(e),
            Ok(done) => match pattern_definition_in(list.item(n - 1)) {
                Err(e) => Err(e),
                Ok(def) => Ok(done.push(def)),
            },
        }
    }
}

/// The table definition that a document holds: `vowel`, `consonant` and
/// `casesensitive` are required strings, `patterns` a required array.
pub open spec fn definition_in(document: JsonModel) -> Result<TableDefinitionModel, ConfigError> {
    match required_text(document, "vowel"@) {
        Err(e) => Err(e),
        Ok(vowel) => match required_text(document, "consonant"@) {
            Err(e) => Err(e),
            Ok(consonant) => match required_text(document, "casesensitive"@) {
                Err(e) => Err(e),
                Ok(casesensitive) => {
                    let list = document.field("patterns"@);
                    if !(list is Array) {
                        Err(ConfigError::MissingField)
                    } else {
                        match pattern_definitions_in(list, list.count() as int) {
                            Err(e) => Err(e),
                            Ok(patterns) => Ok(
                                TableDefinitionModel { vowel, consonant, casesensitive, patterns },
                            ),
                        }
                    }
                },
            },
        },
    }
}

/// The table definition that a text holds. A text with a run of more than
/// [`MAX_DIGIT_RUN`] digits is no document.
pub open spec fn definition_of_text(text: Seq<char>) -> Result<TableDefinitionModel, ConfigError> {
    if !digit_runs_within(text, MAX_DIGIT_RUN as nat) {
        Err(ConfigError::InvalidDocument)
    } else {
        match json_document(text) {
            None => Err(ConfigError::InvalidDocument),
            Some(document) => definition_in(document),
        }
    }
}

/// The table that loading the definition held by `text` into `table`
/// gives, or why the text is rejected.
pub open spec fn loaded_from_text(table: TableModel, text: Seq<char>) -> Result<TableModel, ConfigError> {
    match definition_of_text(text) {
        Err(e) => Err(e),
        Ok(def) => loaded(table, def),
    }
}

/// Once a member holds no match definition, every longer list is rejected.
pub proof fn lemma_match_definitions_error(list: JsonModel, n: int, m: int)
    requires
        0 <= n <= m,
        match_definitions_in(list, n) is Err,
    ensures
        match_definitions_in(list, m) == match_definitions_in(list, n),
    decreases m - n,
{
    if n < m {
        lemma_match_definitions_error(list, n, m - 1);
    }
}

/// Once a member holds no rule definition, every longer list is rejected.
pub proof fn lemma_rule_definitions_error(list: JsonModel, n: int, m: int)
    requires
        0 <= n <= m,
        rule_definitions_in(list, n) is Err,
    ensures
        rule_definitions_in(list, m) == rule_definitions_in(list, n),
    decreases m - n,
{
    if n < m {
        lemma_rule_definitions_error(list, n, m - 1);
    }
}

/// Once a member holds no pattern definition, every longer list is
/// rejected.
pub proof fn lemma_pattern_definitions_error(list: JsonModel, n: int, m: int)
    requires
        0 <= n <= m,
        pattern_definitions_in(list, n) is Err,
    ensures
        pattern_definitions_in(list, m) == pattern_definitions_in(list, n),
    decreases m - n,
{
    if n < m {
        lemma_pattern_definitions_error(list, n, m - 1);
    }
}

/// Reads the string under `key`.
fn read_text(value: &json::JsonValue, key: &str) -> (result: Result<String, ConfigError>)
    ensures
        match required_text(json_model(*value), key@) {
            Ok(text) => result is Ok && result->Ok_0@ == text,
            Err(e) => result == Err::<String, ConfigError>(e),
        },
{
    match text_of(field_of(value, key)) {
        Some(text) => Ok(String::from_str(text)),
        None => Err(ConfigError::MissingField),
    }
}

/// Reads the match definition that `value` holds.
pub fn read_match_definition(value: &json::JsonValue) -> (result: Result<MatchDefinition, ConfigError>)
    ensures
        match match_definition_in(json_model(*value)) {
            Ok(def) => result is Ok && result->Ok_0@ == def,
            Err(e) => result == Err::<MatchDefinition, ConfigError>(e),
        },
{
    let kind = match read_text(value, "type") {
        Ok(kind) => kind,
        Err(e) => {
            return Err(e);
        },
    };
    let scope = match read_text(value, "scope") {
        Ok(scope) => scope,
        Err(e) => {
            return Err(e);
        },
    };
    let value = match text_of(field_of(value, "value")) {
        Some(text) => Some(String::from_str(text)),
        None => None,
    };
    Ok(MatchDefinition { kind, scope, value })
}

/// Reads the rule definition that `value` holds.
#[verifier::loop_isolation(false)]
pub fn read_rule_definition(value: &json::JsonValue) -> (result: Result<RuleDefinition, ConfigError>)
    ensures
        match rule_definition_in(json_model(*value)) {
            Ok(def) => result is Ok && result->Ok_0@ == def,
            Err(e) => result == Err::<RuleDefinition, ConfigError>(e),
        },
{
    let replace = match read_text(value, "replace") {
        Ok(replace) => replace,
        Err(e) => {
            return Err(e);
        },
    };
    let list = field_of(value, "matches");
    if !is_array(list) {
        return Err(ConfigError::MissingField);
    }
    let count = length_of(list);
    let mut matches: Vec<MatchDefinition> = Vec::new();
    let mut i: usize = 0;
    assert(match_definition_models(matches@) =~= Seq::<MatchDefinitionModel>::empty());
    while i < count
        invariant
            i <= count,
            count == json_model(*list).count(),
            match_definitions_in(json_model(*list), i as int) == Ok::<Seq<MatchDefinitionModel>, ConfigError>(
                match_definition_models(matches@),
            ),
        decreases count - i,
    {
        let ghost done = match_definition_models(matches@);
        match read_match_definition(item_of(list, i)) {
            Ok(def) => {
                matches.push(def);
                assert(match_definition_models(matches@) =~= done.push(def@));
            },
            Err(e) => {
                proof {
                    lemma_match_definitions_error(json_model(*list), i + 1, count as int);
                }
                return Err(e);
            },
        }
        i += 1;
    }
    Ok(RuleDefinition { replace, matches })
}

/// Reads the pattern definition that `value` holds.
#[verifier::loop_isolation(false)]
pub fn read_pattern_definition(value: &json::JsonValue) -> (result: Result<PatternDefinition, ConfigError>)
    ensures
        match pattern_definition_in(json_model(*value)) {
            Ok(def) => result is Ok && result->Ok_0@ == def,
            Err(e) => result == Err::<PatternDefinition, ConfigError>(e),
        },
{
    let find = match read_text(value, "find") {
        Ok(find) => find,
        Err(e) => {
            return Err(e);
        },
    };
    let replace = match read_text(value, "replace") {
        Ok(replace) => replace,
        Err(e) => {
            return Err(e);
        },
    };
    let list = field_of(value, "rules");
    let mut rules: Vec<RuleDefinition> = Vec::new();
    assert(rule_definition_models(rules@) =~= Seq::<RuleDefinitionModel>::empty());
    if is_null(list) {
        return Ok(PatternDefinition { find, replace, rules });
    }
    if !is_array(list) {
        return Err(ConfigError::MissingField);
    }
    let count = length_of(list);
    let mut i: usize = 0;
    while i < count
        invariant
            i <= count,
            count == json_model(*list).count(),
            rule_definitions_in(json_model(*list), i as int) == Ok::<Seq<RuleDefinitionModel>, ConfigError>(
                rule_definition_models(rules@),
            ),
        decreases count - i,
    {
        let ghost done = rule_definition_models(rules@);
        match read_rule_definition(item_of(list, i)) {
            Ok(def) => {
                rules.push(def);
                assert(rule_definition_models(rules@) =~= done.push(def@));
            },
            Err(e) => {
                proof {
                    lemma_rule_definitions_error(json_model(*list), i + 1, count as int);
                }
                return Err(e);
            },
        }
        i += 1;
    }
    Ok(PatternDefinition { find, replace, rules })
}

/// Reads the table definition that `document` holds.
#[verifier::loop_isolation(false)]
pub fn read_definition(document: &json::JsonValue) -> (result: Result<TableDefinition, ConfigError>)
    ensures
        match definition_in(json_model(*document)) {
            Ok(def) => result is Ok && result->Ok_0@ == def,
            Err(e) => result == Err::<TableDefinition, ConfigError>(e),
        },
{
    let vowel = match read_text(document, "vowel") {
        Ok(vowel) => vowel,
        Err(e) => {
            return Err(e);
        },
    };
    let consonant = match read_text(document, "consonant") {
        Ok(consonant) => consonant,
        Err(e) => {
            return Err(e);
        },
    };
    let casesensitive = match read_text(document, "casesensitive") {
        Ok(casesensitive) => casesensitive,
        Err(e) => {
            return Err(e);
        },
    };
    let list = field_of(document, "patterns");
    if !is_array(list) {
        return Err(ConfigError::MissingField);
    }
    let count = length_of(list);
    let mut patterns: Vec<PatternDefinition> = Vec::new();
    let mut i: usize = 0;
    assert(pattern_definition_models(patterns@) =~= Seq::<PatternDefinitionModel>::empty());
    while i < count
        invariant
            i <= count,
            count == json_model(*list).count(),
            pattern_definitions_in(json_model(*list), i as int) == Ok::<
                Seq<PatternDefinitionModel>,
                ConfigError,
            >(pattern_definition_models(patterns@)),
        decreases count - i,
    {
        let ghost done = pattern_definition_models(patterns@);
        match read_pattern_definition(item_of(list, i)) {
            Ok(def) => {
                patterns.push(def);
                assert(pattern_definition_models(patterns@) =~= done.push(def@));
            },
            Err(e) => {
                proof {
                    lemma_pattern_definitions_error(json_model(*list), i + 1, count as int);
                }
                return Err(e);
            },
        }
        i += 1;
    }
    Ok(TableDefinition { vowel, consonant, casesensitive, patterns })
}

/// Parses `text` and reads the table definition that it holds.
pub fn parse_definition(text: &str) -> (result: Result<TableDefinition, ConfigError>)
    ensures
        match definition_of_text(text@) {
            Ok(def) => result is Ok && result->Ok_0@ == def,
            Err(e) => result == Err::<TableDefinition, ConfigError>(e),
        },
{
    if !has_digit_runs_within(text, MAX_DIGIT_RUN) {
        return Err(ConfigError::InvalidDocument);
    }
    match parse_document(text) {
        Ok(document) => read_definition(&document),
        Err(_) => Err(ConfigError::InvalidDocument),
    }
}

impl AvroPhonetic {
    /// Loads the rule definition held by the JSON text `json_string` into
    /// the table. A text that is rejected leaves the table as it was.
    pub fn load_patterns_from_json(&mut self, json_string: &str) -> (result: Result<(), ConfigError>)
        requires
            old(self).wf(),
        ensures
            final(self).wf(),
            match loaded_from_text(old(self)@, json_string@) {
                Ok(table) => result is Ok && final(self)@ == table,
                Err(e) => result == Err::<(), ConfigError>(e) && final(self)@ == old(self)@,
            },
    {
        match parse_definition(json_string) {
            Ok(def) => self.load_definition(&def),
            Err(e) => Err(e),
        }
    }
}

/// Builds the table that the JSON text `json_string` defines.
pub fn get_avro_phonetic(json_string: &str) -> (result: Result<AvroPhonetic, ConfigError>)
    ensures
        match loaded_from_text(TableModel::vacant(), json_string@) {
            Ok(table) => result is Ok && result->Ok_0@ == table && result->Ok_0.wf(),
            Err(e) => result is Err && result->Err_0 == e,
        },
{
    let mut table = AvroPhonetic::new();
    assert(table@ =~= TableModel::vacant());
    match table.load_patterns_from_json(json_string) {
        Ok(()) => Ok(table),
        Err(e) => Err(e),
    }
}

} // verus!
