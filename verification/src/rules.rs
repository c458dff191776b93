//! The rewrite rules: match conditions, conditional rules and patterns,
//! each with the mathematical model that contracts speak of.

use vstd::prelude::*;

verus! {

/// Which neighbour of a matched span a condition looks at.
#[derive(Clone, Copy, Debug, PartialEq, Eq, Structural)]
pub enum MatchType {
    /// The character immediately before the span.
    Prefix,
    /// The character immediately after the span.
    Suffix,
}

/// One test that a condition can apply to the neighbouring character.
#[derive(Clone, Copy, Debug, PartialEq, Eq, Structural)]
pub enum Scope {
    Consonant,
    Vowel,
    Punctuation,
    Exact,
    NotConsonant,
    NotVowel,
    NotPunctuation,
    NotExact,
}

/// The set of tests selected by one condition.
#[derive(Clone, Copy, Debug, PartialEq, Eq, Structural)]
pub struct ScopeSet {
    pub consonant: bool,
    pub vowel: bool,
    pub punctuation: bool,
    pub exact: bool,
    pub not_consonant: bool,
    pub not_vowel: bool,
    pub not_punctuation: bool,
    pub not_exact: bool,
}

impl ScopeSet {
    /// Whether `scope` is a member of the set.
    pub open spec fn has(self, scope: Scope) -> bool {
        match scope {
            Scope::Consonant => self.consonant,
            Scope::Vowel => self.vowel,
            Scope::Punctuation => self.punctuation,
            Scope::Exact => self.exact,
            Scope::NotConsonant => self.not_consonant,
            Scope::NotVowel => self.not_vowel,
            Scope::NotPunctuation => self.not_punctuation,
            Scope::NotExact => self.not_exact,
        }
    }

    /// The set with no test selected.
    pub open spec fn none() -> ScopeSet {
        ScopeSet {
            consonant: false,
            vowel: false,
            punctuation: false,
            exact: false,
            not_consonant: false,
            not_vowel: false,
            not_punctuation: false,
            not_exact: false,
        }
    }

    /// The set with `scope` added.
    pub open spec fn plus(self, scope: Scope) -> ScopeSet {
        match scope {
            Scope::Consonant => ScopeSet { consonant: true, ..self },
            Scope::Vowel => ScopeSet { vowel: true, ..self },
            Scope::Punctuation => ScopeSet { punctuation: true, ..self },
            Scope::Exact => ScopeSet { exact: true, ..self },
            Scope::NotConsonant => ScopeSet { not_consonant: true, ..self },
            Scope::NotVowel => ScopeSet { not_vowel: true, ..self },
            Scope::NotPunctuation => ScopeSet { not_punctuation: true, ..self },
            Scope::NotExact => ScopeSet { not_exact: true, ..self },
        }
    }

    /// The set that selects exactly `scope`.
    pub open spec fn singleton(scope: Scope) -> ScopeSet {
        ScopeSet::none().plus(scope)
    }

    /// The set with no test selected.
    pub fn empty() -> (set: ScopeSet)
        ensures
            set == ScopeSet::none(),
            forall|scope: Scope| !set.has(scope),
    {
        ScopeSet {
            consonant: false,
            vowel: false,
            punctuation: false,
            exact: false,
            not_consonant: false,
            not_vowel: false,
            not_punctuation: false,
            not_exact: false,
        }
    }

    /// The set that selects exactly `scope`.
    pub fn only(scope: Scope) -> (set: ScopeSet)
        ensures
            set == ScopeSet::singleton(scope),
            forall|other: Scope| set.has(other) <==> other == scope,
    {
        ScopeSet::empty().with(scope)
    }

    /// The set with `scope` added.
    pub fn with(self, scope: Scope) -> (set: ScopeSet)
        ensures
            set == self.plus(scope),
            forall|other: Scope| set.has(other) <==> (other == scope || self.has(other)),
    {
        let mut set = self;
        match scope {
            Scope::Consonant => {
                set.consonant = true;
            },
            Scope::Vowel => {
                set.vowel = true;
            },
            Scope::Punctuation => {
                set.punctuation = true;
            },
            Scope::Exact => {
                set.exact = true;
            },
            Scope::NotConsonant => {
                set.not_consonant = true;
            },
            Scope::NotVowel => {
                set.not_vowel = true;
            },
            Scope::NotPunctuation => {
                set.not_punctuation = true;
            },
            Scope::NotExact => {
                set.not_exact = true;
            },
        }
        set
    }

    /// Whether `scope` is a member of the set.
    pub fn contains(&self, scope: Scope) -> (found: bool)
        ensures
            found == self.has(scope),
    {
        match scope {
            Scope::Consonant => self.consonant,
            Scope::Vowel => self.vowel,
            Scope::Punctuation => self.punctuation,
            Scope::Exact => self.exact,
            Scope::NotConsonant => self.not_consonant,
            Scope::NotVowel => self.not_vowel,
            Scope::NotPunctuation => self.not_punctuation,
            Scope::NotExact => self.not_exact,
        }
    }
}

/// A predicate on one neighbour of a matched span.
#[derive(Clone, Copy, Debug, PartialEq, Eq, Structural)]
pub struct MatchRule {
    pub match_type: MatchType,
    pub scope: ScopeSet,
    /// The character compared against when `scope` selects `Exact` or
    /// `NotExact`.
    pub exact_value: Option<char>,
}

/// An alternative replacement for a pattern, chosen when every one of its
/// conditions passes.
#[derive(Debug)]
pub struct ConditionalRule {
    pub conditions: Vec<MatchRule>,
    pub replacement: String,
}

/// The model of a [`ConditionalRule`].
pub struct RuleModel {
    pub conditions: Seq<MatchRule>,
    pub replacement: Seq<char>,
}

impl View for ConditionalRule {
    type V = RuleModel;

    open spec fn view(&self) -> RuleModel {
        RuleModel { conditions: self.conditions@, replacement: self.replacement@ }
    }
}

/// The models of a list of conditional rules, in order.
pub open spec fn rule_models(rules: Seq<ConditionalRule>) -> Seq<RuleModel> {
    rules.map_values(|rule: ConditionalRule| rule@)
}

/// One find-and-replace transformation.
#[derive(Debug)]
pub struct Pattern {
    /// The literal that the pattern matches, character by character.
    pub find: Vec<char>,
    /// The replacement emitted when no conditional rule passes.
    pub default_replace: String,
    /// The conditional rules, in the order in which they are tried.
    pub conditional_rules: Vec<ConditionalRule>,
}

/// The model of a [`Pattern`].
pub struct PatternModel {
    pub find: Seq<char>,
    pub default_replace: Seq<char>,
    pub rules: Seq<RuleModel>,
}

impl View for Pattern {
    type V = PatternModel;

    open spec fn view(&self) -> PatternModel {
        PatternModel {
            find: self.find@,
            default_replace: self.default_replace@,
            rules: rule_models(self.conditional_rules@),
        }
    }
}

/// The models of a list of patterns, in order.
pub open spec fn pattern_models(patterns: Seq<Pattern>) -> Seq<PatternModel> {
    patterns.map_values(|pattern: Pattern| pattern@)
}

} // verus!
