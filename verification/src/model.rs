//! The mathematical model of a rule table and of transliteration over it.
//!
//! Everything here is ghost code: a table is a value made of sequences, and
//! conversion is a function from a character sequence to a character
//! sequence. The executable engine is proved to compute these functions.

use vstd::prelude::*;
use crate::rules::{MatchRule, MatchType, PatternModel, RuleModel, ScopeSet};
use crate::text::ascii_lower;

verus! {

/// The model of a rule table.
pub struct TableModel {
    /// `buckets[n]` holds the patterns whose `find` has `n` characters, in
    /// insertion order.
    pub buckets: Seq<Seq<PatternModel>>,
    pub vowels: Seq<char>,
    pub consonants: Seq<char>,
    pub case_sensitive: Seq<char>,
}

/// The character that a condition of the given type inspects for the span
/// `start..=end` of `text`; a neighbour outside the text is a space.
pub open spec fn neighbor(text: Seq<char>, match_type: MatchType, start: int, end: int) -> char {
    match match_type {
        MatchType::Prefix => if 1 <= start && start - 1 < text.len() {
            text[start - 1]
        } else {
            ' '
        },
        MatchType::Suffix => if 0 <= end + 1 && end + 1 < text.len() {
            text[end + 1]
        } else {
            ' '
        },
    }
}

/// Whether `find` occurs in `text` starting at position `at`.
pub open spec fn found_at(find: Seq<char>, text: Seq<char>, at: int) -> bool {
    &&& 0 <= at
    &&& at + find.len() <= text.len()
    &&& text.subrange(at, at + find.len()) == find
}

/// The index of the first pattern of `bucket`, at or after `from`, whose
/// `find` occurs in `text` at `at`.
pub open spec fn first_match(bucket: Seq<PatternModel>, text: Seq<char>, at: int, from: int) -> Option<int>
    decreases bucket.len() - from,
{
    if from < 0 || from >= bucket.len() {
        None
    } else if found_at(bucket[from].find, text, at) {
        Some(from)
    } else {
        first_match(bucket, text, at, from + 1)
    }
}

impl TableModel {
    /// The table without patterns and with empty character classes.
    pub open spec fn vacant() -> TableModel {
        TableModel {
            buckets: Seq::empty(),
            vowels: Seq::empty(),
            consonants: Seq::empty(),
            case_sensitive: Seq::empty(),
        }
    }

    /// Every pattern sits in the bucket of its own length, and the last
    /// bucket is not empty.
    pub open spec fn wf(self) -> bool {
        &&& forall|len: int, k: int|
            0 <= len < self.buckets.len() && 0 <= k < self.buckets[len].len()
                ==> (#[trigger] self.buckets[len][k]).find.len() == len
        &&& self.buckets.len() > 0 ==> self.buckets.last().len() > 0
    }

    /// The length of the longest `find` in the table, 0 for an empty table.
    pub open spec fn max_pattern_length(self) -> nat {
        if self.buckets.len() == 0 {
            0
        } else {
            (self.buckets.len() - 1) as nat
        }
    }

    pub open spec fn is_vowel(self, c: char) -> bool {
        self.vowels.contains(ascii_lower(c))
    }

    pub open spec fn is_consonant(self, c: char) -> bool {
        self.consonants.contains(ascii_lower(c))
    }

    /// Punctuation is whatever is neither a vowel nor a consonant.
    pub open spec fn is_punctuation(self, c: char) -> bool {
        !self.is_vowel(c) && !self.is_consonant(c)
    }

    pub open spec fn is_case_sensitive(self, c: char) -> bool {
        self.case_sensitive.contains(ascii_lower(c))
    }

    /// The normalized form of one character: itself where it is case
    /// sensitive, its ASCII lower-case form otherwise.
    pub open spec fn fix_char(self, c: char) -> char {
        if self.is_case_sensitive(c) {
            c
        } else {
            ascii_lower(c)
        }
    }

    /// The normalized copy of an input, character by character.
    pub open spec fn fix_string(self, input: Seq<char>) -> Seq<char> {
        Seq::new(input.len(), |i: int| self.fix_char(input[i]))
    }

    /// Whether every class test selected by `scope` holds of `c`.
    pub open spec fn classes_hold(self, scope: ScopeSet, c: char) -> bool {
        &&& scope.consonant ==> self.is_consonant(c)
        &&& scope.not_consonant ==> !self.is_consonant(c)
        &&& scope.vowel ==> self.is_vowel(c)
        &&& scope.not_vowel ==> !self.is_vowel(c)
        &&& scope.punctuation ==> self.is_punctuation(c)
        &&& scope.not_punctuation ==> !self.is_punctuation(c)
    }

    /// Whether `condition` holds of the character `c`. An exact test with a
    /// stored value decides alone; otherwise all selected class tests must
    /// hold.
    pub open spec fn condition_holds(self, condition: MatchRule, c: char) -> bool {
        if condition.scope.exact && condition.exact_value is Some {
            c == condition.exact_value->0
        } else if condition.scope.not_exact && condition.exact_value is Some {
            c != condition.exact_value->0
        } else {
            self.classes_hold(condition.scope, c)
        }
    }

    /// Whether `condition` holds for the span `start..=end` of `text`.
    pub open spec fn check_condition(self, condition: MatchRule, text: Seq<char>, start: int, end: int) -> bool {
        self.condition_holds(condition, neighbor(text, condition.match_type, start, end))
    }

    /// Whether every condition of `rule` holds for the span.
    pub open spec fn rule_passes(self, rule: RuleModel, text: Seq<char>, start: int, end: int) -> bool {
        forall|k: int|
            0 <= k < rule.conditions.len() ==> self.check_condition(
                #[trigger] rule.conditions[k],
                text,
                start,
                end,
            )
    }

    /// The replacement of `pattern` for the span when only the rules at or
    /// after `from` are tried, in order.
    pub open spec fn replacement_from(
        self,
        pattern: PatternModel,
        text: Seq<char>,
        start: int,
        end: int,
        from: int,
    ) -> Seq<char>
        decreases pattern.rules.len() - from,
    {
        if from < 0 || from >= pattern.rules.len() {
            pattern.default_replace
        } else if self.rule_passes(pattern.rules[from], text, start, end) {
            pattern.rules[from].replacement
        } else {
            self.replacement_from(pattern, text, start, end, from + 1)
        }
    }

    /// The replacement that `pattern` contributes for the span `start..=end`.
    pub open spec fn replacement(self, pattern: PatternModel, text: Seq<char>, start: int, end: int) -> Seq<char> {
        self.replacement_from(pattern, text, start, end, 0)
    }

    /// The greatest length in `1..=limit` at which some pattern matches
    /// `text` at `at`, or 0 where there is none.
    pub open spec fn match_length(self, text: Seq<char>, at: int, limit: int) -> int
        decreases limit,
    {
        if limit <= 0 {
            0
        } else if limit < self.buckets.len() && first_match(self.buckets[limit], text, at, 0) is Some {
            limit
        } else {
            self.match_length(text, at, limit - 1)
        }
    }

    /// The greatest candidate length tried at position `at`.
    pub open spec fn length_limit(self, text: Seq<char>, at: int) -> int {
        if self.max_pattern_length() <= text.len() - at {
            self.max_pattern_length() as int
        } else {
            text.len() - at
        }
    }

    /// The length of the longest match at position `at`, 0 where no pattern
    /// matches there.
    pub open spec fn longest_match(self, text: Seq<char>, at: int) -> int {
        self.match_length(text, at, self.length_limit(text, at))
    }

    /// The pattern selected at position `at`, where `longest_match` is
    /// positive: the first matching pattern of the longest matching length.
    pub open spec fn selected(self, text: Seq<char>, at: int) -> PatternModel {
        let len = self.longest_match(text, at);
        self.buckets[len][first_match(self.buckets[len], text, at, 0)->0]
    }

    /// The output of the scan of `text` from position `at` to its end.
    pub open spec fn scan(self, text: Seq<char>, at: int) -> Seq<char>
        decreases text.len() - at,
    {
        if at < 0 || at >= text.len() {
            Seq::empty()
        } else {
            let len = self.longest_match(text, at);
            if 1 <= len <= text.len() - at {
                self.replacement(self.selected(text, at), text, at, at + len - 1) + self.scan(
                    text,
                    at + len,
                )
            } else {
                seq![text[at]] + self.scan(text, at + 1)
            }
        }
    }

    /// The transliteration of `input`.
    pub open spec fn convert(self, input: Seq<char>) -> Seq<char> {
        self.scan(self.fix_string(input), 0)
    }

    /// The table with `pattern` added to the bucket of its length.
    pub open spec fn with_pattern(self, pattern: PatternModel) -> TableModel {
        let len = pattern.find.len() as int;
        let buckets = if len < self.buckets.len() {
            self.buckets.update(len, self.buckets[len].push(pattern))
        } else {
            Seq::new(
                (len + 1) as nat,
                |i: int|
                    if i < self.buckets.len() {
                        self.buckets[i]
                    } else if i == len {
                        seq![pattern]
                    } else {
                        Seq::empty()
                    },
            )
        };
        TableModel { buckets, ..self }
    }
}

} // verus!
