//! The declarative rule definition from which a table is loaded, and the
//! loader that checks it and builds the table.

use vstd::prelude::*;
use vstd::string::*;
use crate::model::TableModel;
use crate::rules::{
    pattern_models, rule_models, ConditionalRule, MatchRule, MatchType, Pattern, PatternModel,
    RuleModel, Scope, ScopeSet,
};
use crate::table::AvroPhonetic;
use crate::text::{chars_of, same_text};

verus! {

/// Why a rule definition was rejected.
#[derive(Clone, Copy, Debug, PartialEq, Eq, Structural)]
pub enum ConfigError {
    /// The text is not a well-formed document.
    InvalidDocument,
    /// A required field is absent or is not of the required kind.
    MissingField,
    /// A match `type` is neither `prefix` nor `suffix`.
    InvalidMatchType,
    /// A match `scope` is none of the known scopes.
    InvalidScope,
    /// The `value` of an `exact` or `!exact` scope is not one character.
    InvalidValue,
}

/// The definition of one match condition.
#[derive(Debug)]
pub struct MatchDefinition {
    /// `prefix` or `suffix`.
    pub kind: String,
    /// `consonant`, `vowel`, `punctuation` or `exact`, negated by a leading
    /// `!`.
    pub scope: String,
    /// The character that an `exact` or `!exact` scope compares with. With
    /// these scopes it is required and holds exactly one character; with
    /// the others it is not read.
    pub value: Option<String>,
}

/// The definition of one conditional rule.
#[derive(Debug)]
pub struct RuleDefinition {
    pub replace: String,
    pub matches: Vec<MatchDefinition>,
}

/// The definition of one pattern.
#[derive(Debug)]
pub struct PatternDefinition {
    pub find: String,
    pub replace: String,
    pub rules: Vec<RuleDefinition>,
}

/// The definition of a whole table.
#[derive(Debug)]
pub struct TableDefinition {
    pub vowel: String,
    pub consonant: String,
    pub casesensitive: String,
    pub patterns: Vec<PatternDefinition>,
}

/// The model of a [`MatchDefinition`].
pub struct MatchDefinitionModel {
    pub kind: Seq<char>,
    pub scope: Seq<char>,
    pub value: Option<Seq<char>>,
}

/// The model of a [`RuleDefinition`].
pub struct RuleDefinitionModel {
    pub replace: Seq<char>,
    pub matches: Seq<MatchDefinitionModel>,
}

/// The model of a [`PatternDefinition`].
pub struct PatternDefinitionModel {
    pub find: Seq<char>,
    pub replace: Seq<char>,
    pub rules: Seq<RuleDefinitionModel>,
}

/// The model of a [`TableDefinition`].
pub struct TableDefinitionModel {
    pub vowel: Seq<char>,
    pub consonant: Seq<char>,
    pub casesensitive: Seq<char>,
    pub patterns: Seq<PatternDefinitionModel>,
}

impl View for MatchDefinition {
    type V = MatchDefinitionModel;

    open spec fn view(&self) -> MatchDefinitionModel {
        MatchDefinitionModel {
            kind: self.kind@,
            scope: self.scope@,
            value: match self.value {
                Some(value) => Some(value@),
                None => None,
            },
        }
    }
}

/// The models of a list of match definitions, in order.
pub open spec fn match_definition_models(defs: Seq<MatchDefinition>) -> Seq<MatchDefinitionModel> {
    defs.map_values(|def: MatchDefinition| def@)
}

impl View for RuleDefinition {
    type V = RuleDefinitionModel;

    open spec fn view(&self) -> RuleDefinitionModel {
        RuleDefinitionModel { replace: self.replace@, matches: match_definition_models(self.matches@) }
    }
}

/// The models of a list of rule definitions, in order.
pub open spec fn rule_definition_models(defs: Seq<RuleDefinition>) -> Seq<RuleDefinitionModel> {
    defs.map_values(|def: RuleDefinition| def@)
}

impl View for PatternDefinition {
    type V = PatternDefinitionModel;

    open spec fn view(&self) -> PatternDefinitionModel {
        PatternDefinitionModel {
            find: self.find@,
            replace: self.replace@,
            rules: rule_definition_models(self.rules@),
        }
    }
}

/// The models of a list of pattern definitions, in order.
pub open spec fn pattern_definition_models(defs: Seq<PatternDefinition>) -> Seq<PatternDefinitionModel> {
    defs.map_values(|def: PatternDefinition| def@)
}

impl View for TableDefinition {
    type V = TableDefinitionModel;

    open spec fn view(&self) -> TableDefinitionModel {
        TableDefinitionModel {
            vowel: self.vowel@,
            consonant: self.consonant@,
            casesensitive: self.casesensitive@,
            patterns: pattern_definition_models(self.patterns@),
        }
    }
}

/// The match type that a `type` token names.
pub open spec fn match_type_of(token: Seq<char>) -> Option<MatchType> {
    if token == "prefix"@ {
        Some(MatchType::Prefix)
    } else if token == "suffix"@ {
        Some(MatchType::Suffix)
    } else {
        None
    }
}

/// The scope that a `scope` token names.
pub open spec fn scope_of(token: Seq<char>) -> Option<Scope> {
    if token == "consonant"@ {
        Some(Scope::Consonant)
    } else if token == "vowel"@ {
        Some(Scope::Vowel)
    } else if token == "punctuation"@ {
        Some(Scope::Punctuation)
    } else if token == "exact"@ {
        Some(Scope::Exact)
    } else if token == "!consonant"@ {
        Some(Scope::NotConsonant)
    } else if token == "!vowel"@ {
        Some(Scope::NotVowel)
    } else if token == "!punctuation"@ {
        Some(Scope::NotPunctuation)
    } else if token == "!exact"@ {
        Some(Scope::NotExact)
    } else {
        None
    }
}

/// The character that a `value` stands for: its first one.
pub open spec fn exact_value_of(value: Option<Seq<char>>) -> Option<char> {
    match value {
        Some(text) => if text.len() > 0 {
            Some(text[0])
        } else {
            None
        },
        None => None,
    }
}

/// Whether a scope compares the neighbour with a stored character.
pub open spec fn compares_value(scope: Scope) -> bool {
    scope == Scope::Exact || scope == Scope::NotExact
}

/// The condition that a match definition describes, or why it is rejected.
/// A scope that compares with a character needs a `value` of exactly one
/// character: without a value the definition lacks a required field.
pub open spec fn condition_of(def: MatchDefinitionModel) -> Result<MatchRule, ConfigError> {
    match match_type_of(def.kind) {
        None => Err(ConfigError::InvalidMatchType),
        Some(match_type) => match scope_of(def.scope) {
            None => Err(ConfigError::InvalidScope),
            Some(scope) => if compares_value(scope) && def.value is None {
                Err(ConfigError::MissingField)
            } else if compares_value(scope) && def.value->0.len() != 1 {
                Err(ConfigError::InvalidValue)
            } else {
                Ok(
                    MatchRule {
                        match_type,
                        scope: ScopeSet::singleton(scope),
                        exact_value: exact_value_of(def.value),
                    },
                )
            },
        },
    }
}

/// A condition that was built from a definition and compares with a
/// character has that character.
pub proof fn lemma_built_condition_has_value(def: MatchDefinitionModel)
    requires
        condition_of(def) is Ok,
    ensures
        condition_of(def)->Ok_0.scope.exact || condition_of(def)->Ok_0.scope.not_exact ==> def.value
            is Some && condition_of(def)->Ok_0.exact_value == Some(def.value->0[0]),
{
}

/// The conditions of the first `n` match definitions, or the error of the
/// first one that is rejected.
pub open spec fn conditions_of(defs: Seq<MatchDefinitionModel>, n: int) -> Result<Seq<MatchRule>, ConfigError>
    decreases n,
{
    if n <= 0 {
        Ok(Seq::empty())
    } else {
        match conditions_of(defs, n - 1) {
            Err(e) => Err(e),
            Ok(done) => match condition_of(defs[n - 1]) {
                Err(e) => Err(e),
                Ok(condition) => Ok(done.push(condition)),
            },
        }
    }
}

/// The rule that a rule definition describes, or why it is rejected.
pub open spec fn rule_of(def: RuleDefinitionModel) -> Result<RuleModel, ConfigError> {
    match conditions_of(def.matches, def.matches.len() as int) {
        Err(e) => Err(e),
        Ok(conditions) => Ok(RuleModel { conditions, replacement: def.replace }),
    }
}

/// The rules of the first `n` rule definitions, or the error of the first
/// one that is rejected.
pub open spec fn rules_of(defs: Seq<RuleDefinitionModel>, n: int) -> Result<Seq<RuleModel>, ConfigError>
    decreases n,
{
    if n <= 0 {
        Ok(Seq::empty())
    } else {
        match rules_of(defs, n - 1) {
            Err(e) => Err(e),
            Ok(done) => match rule_of(defs[n - 1]) {
                Err(e) => Err(e),
                Ok(rule) => Ok(done.push(rule)),
            },
        }
    }
}

/// The pattern that a pattern definition describes, or why it is rejected.
pub open spec fn pattern_of(def: PatternDefinitionModel) -> Result<PatternModel, ConfigError> {
    match rules_of(def.rules, def.rules.len() as int) {
        Err(e) => Err(e),
        Ok(rules) => Ok(PatternModel { find: def.find, default_replace: def.replace, rules }),
    }
}

/// The patterns of the first `n` pattern definitions, or the error of the
/// first one that is rejected.
pub open spec fn patterns_of(defs: Seq<PatternDefinitionModel>, n: int) -> Result<Seq<PatternModel>, ConfigError>
    decreases n,
{
    if n <= 0 {
        Ok(Seq::empty())
    } else {
        match patterns_of(defs, n - 1) {
            Err(e) => Err(e),
            Ok(done) => match pattern_of(defs[n - 1]) {
                Err(e) => Err(e),
                Ok(pattern) => Ok(done.push(pattern)),
            },
        }
    }
}

/// The table after the first `n` of `patterns` were added, in order.
pub open spec fn with_patterns(table: TableModel, patterns: Seq<PatternModel>, n: int) -> TableModel
    decreases n,
{
    if n <= 0 {
        table
    } else {
        with_patterns(table, patterns, n - 1).with_pattern(patterns[n - 1])
    }
}

/// The table that loading `def` into `table` gives: the character classes
/// of `def` and the patterns of `table` followed by those of `def`; or why
/// `def` is rejected.
pub open spec fn loaded(table: TableModel, def: TableDefinitionModel) -> Result<TableModel, ConfigError> {
    match patterns_of(def.patterns, def.patterns.len() as int) {
        Err(e) => Err(e),
        Ok(patterns) => Ok(
            with_patterns(
                TableModel {
                    vowels: def.vowel,
                    consonants: def.consonant,
                    case_sensitive: def.casesensitive,
                    ..table
                },
                patterns,
                patterns.len() as int,
            ),
        ),
    }
}

/// Once a match definition is rejected, so is every longer list.
pub proof fn lemma_conditions_error(defs: Seq<MatchDefinitionModel>, n: int, m: int)
    requires
        0 <= n <= m,
        conditions_of(defs, n) is Err,
    ensures
        conditions_of(defs, m) == conditions_of(defs, n),
    decreases m - n,
{
    if n < m {
        lemma_conditions_error(defs, n, m - 1);
    }
}

/// Once a rule definition is rejected, so is every longer list.
pub proof fn lemma_rules_error(defs: Seq<RuleDefinitionModel>, n: int, m: int)
    requires
        0 <= n <= m,
        rules_of(defs, n) is Err,
    ensures
        rules_of(defs, m) == rules_of(defs, n),
    decreases m - n,
{
    if n < m {
        lemma_rules_error(defs, n, m - 1);
    }
}

/// Once a pattern definition is rejected, so is every longer list.
pub proof fn lemma_patterns_error(defs: Seq<PatternDefinitionModel>, n: int, m: int)
    requires
        0 <= n <= m,
        patterns_of(defs, n) is Err,
    ensures
        patterns_of(defs, m) == patterns_of(defs, n),
    decreases m - n,
{
    if n < m {
        lemma_patterns_error(defs, n, m - 1);
    }
}

/// Reads a match `type` token.
pub fn parse_match_type(token: &str) -> (result: Result<MatchType, ConfigError>)
    ensures
        result == match match_type_of(token@) {
            Some(match_type) => Ok::<MatchType, ConfigError>(match_type),
            None => Err(ConfigError::InvalidMatchType),
        },
{
    if same_text(token, "prefix") {
        Ok(MatchType::Prefix)
    } else if same_text(token, "suffix") {
        Ok(MatchType::Suffix)
    } else {
        Err(ConfigError::InvalidMatchType)
    }
}

/// Reads a match `scope` token.
pub fn parse_scope(token: &str) -> (result: Result<Scope, ConfigError>)
    ensures
        result == match scope_of(token@) {
            Some(scope) => Ok::<Scope, ConfigError>(scope),
            None => Err(ConfigError::InvalidScope),
        },
{
    if same_text(token, "consonant") {
        Ok(Scope::Consonant)
    } else if same_text(token, "vowel") {
        Ok(Scope::Vowel)
    } else if same_text(token, "punctuation") {
        Ok(Scope::Punctuation)
    } else if same_text(token, "exact") {
        Ok(Scope::Exact)
    } else if same_text(token, "!consonant") {
        Ok(Scope::NotConsonant)
    } else if same_text(token, "!vowel") {
        Ok(Scope::NotVowel)
    } else if same_text(token, "!punctuation") {
        Ok(Scope::NotPunctuation)
    } else if same_text(token, "!exact") {
        Ok(Scope::NotExact)
    } else {
        Err(ConfigError::InvalidScope)
    }
}

/// Builds the condition that `def` describes.
pub fn build_condition(def: &MatchDefinition) -> (result: Result<MatchRule, ConfigError>)
    ensures
        result == condition_of(def@),
{
    let match_type = match parse_match_type(def.kind.as_str()) {
        Ok(match_type) => match_type,
        Err(e) => {
            return Err(e);
        },
    };
    let scope = match parse_scope(def.scope.as_str()) {
        Ok(scope) => scope,
        Err(e) => {
            return Err(e);
        },
    };
    let compares = scope == Scope::Exact || scope == Scope::NotExact;
    let exact_value = match &def.value {
        Some(value) => {
            let len = value.as_str().unicode_len();
            if compares && len != 1 {
                return Err(ConfigError::InvalidValue);
            }
            if len > 0 {
                Some(value.as_str().get_char(0))
            } else {
                None
            }
        },
        None => {
            if compares {
                return Err(ConfigError::MissingField);
            }
            None
        },
    };
    Ok(MatchRule { match_type, scope: ScopeSet::only(scope), exact_value })
}

/// Builds the rule that `def` describes.
pub fn build_rule(def: &RuleDefinition) -> (result: Result<ConditionalRule, ConfigError>)
    ensures
        match rule_of(def@) {
            Ok(model) => result is Ok && result->Ok_0@ == model,
            Err(e) => result == Err::<ConditionalRule, ConfigError>(e),
        },
{
    let ghost models = match_definition_models(def.matches@);
    let mut conditions: Vec<MatchRule> = Vec::new();
    let mut i: usize = 0;
    while i < def.matches.len()
        invariant
            i <= def.matches.len(),
            models == match_definition_models(def.matches@),
            conditions_of(models, i as int) == Ok::<Seq<MatchRule>, ConfigError>(conditions@),
        decreases def.matches.len() - i,
    {
        assert(models[i as int] == def.matches@[i as int]@);
        match build_condition(&def.matches[i]) {
            Ok(condition) => {
                conditions.push(condition);
            },
            Err(e) => {
                proof {
                    lemma_conditions_error(models, i + 1, models.len() as int);
                }
                return Err(e);
            },
        }
        i += 1;
    }
    Ok(ConditionalRule { conditions, replacement: def.replace.clone() })
}

/// Builds the pattern that `def` describes.
pub fn build_pattern(def: &PatternDefinition) -> (result: Result<Pattern, ConfigError>)
    ensures
        match pattern_of(def@) {
            Ok(model) => result is Ok && result->Ok_0@ == model,
            Err(e) => result == Err::<Pattern, ConfigError>(e),
        },
{
    let ghost models = rule_definition_models(def.rules@);
    let mut rules: Vec<ConditionalRule> = Vec::new();
    let mut i: usize = 0;
    assert(rule_models(rules@) =~= Seq::<RuleModel>::empty());
    while i < def.rules.len()
        invariant
            i <= def.rules.len(),
            models == rule_definition_models(def.rules@),
            rules_of(models, i as int) == Ok::<Seq<RuleModel>, ConfigError>(rule_models(rules@)),
        decreases def.rules.len() - i,
    {
        assert(models[i as int] == def.rules@[i as int]@);
        let ghost done = rule_models(rules@);
        match build_rule(&def.rules[i]) {
            Ok(rule) => {
                rules.push(rule);
                assert(rule_models(rules@) =~= done.push(rule@));
            },
            Err(e) => {
                proof {
                    lemma_rules_error(models, i + 1, models.len() as int);
                }
                return Err(e);
            },
        }
        i += 1;
    }
    Ok(
        Pattern {
            find: chars_of(def.find.as_str()),
            default_replace: def.replace.clone(),
            conditional_rules: rules,
        },
    )
}

/// Builds the patterns that `defs` describe, in order.
pub fn build_patterns(defs: &Vec<PatternDefinition>) -> (result: Result<Vec<Pattern>, ConfigError>)
    ensures
        match patterns_of(pattern_definition_models(defs@), defs@.len() as int) {
            Ok(models) => result is Ok && pattern_models(result->Ok_0@) == models,
            Err(e) => result == Err::<Vec<Pattern>, ConfigError>(e),
        },
{
    let ghost models = pattern_definition_models(defs@);
    let mut patterns: Vec<Pattern> = Vec::new();
    let mut i: usize = 0;
    assert(pattern_models(patterns@) =~= Seq::<PatternModel>::empty());
    while i < defs.len()
        invariant
            i <= defs.len(),
            models == pattern_definition_models(defs@),
            patterns_of(models, i as int) == Ok::<Seq<PatternModel>, ConfigError>(
                pattern_models(patterns@),
            ),
        decreases defs.len() - i,
    {
        assert(models[i as int] == defs@[i as int]@);
        let ghost done = pattern_models(patterns@);
        match build_pattern(&defs[i]) {
            Ok(pattern) => {
                patterns.push(pattern);
                assert(pattern_models(patterns@) =~= done.push(pattern@));
            },
            Err(e) => {
                proof {
                    lemma_patterns_error(models, i + 1, models.len() as int);
                }
                return Err(e);
            },
        }
        i += 1;
    }
    Ok(patterns)
}

impl AvroPhonetic {
    /// Loads `def` into the table: replaces the character classes and
    /// appends the patterns, in order. A definition that is rejected leaves
    /// the table as it was.
    pub fn load_definition(&mut self, def: &TableDefinition) -> (result: Result<(), ConfigError>)
        requires
            old(self).wf(),
        ensures
            final(self).wf(),
            match loaded(old(self)@, def@) {
                Ok(table) => result is Ok && final(self)@ == table,
                Err(e) => result == Err::<(), ConfigError>(e) && final(self)@ == old(self)@,
            },
    {
        let patterns = match build_patterns(&def.patterns) {
            Ok(patterns) => patterns,
            Err(e) => {
                return Err(e);
            },
        };
        self.set_character_classes(
            def.vowel.as_str(),
            def.consonant.as_str(),
            def.casesensitive.as_str(),
        );
        let ghost base = self@;
        let ghost models = pattern_models(patterns@);
        for pattern in it: patterns
            invariant
                self.wf(),
                models == pattern_models(it.seq()),
                self@ == with_patterns(base, models, it.index() as int),
        {
            assert(models[it.index() as int] == pattern@);
            self.add_pattern(pattern);
        }
        Ok(())
    }
}

} // verus!
