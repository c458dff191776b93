//! The transliterator: condition checks, rule selection and the greedy
//! longest-match scan.

use vstd::prelude::*;
use vstd::string::*;
use crate::model::{first_match, found_at, neighbor};
use crate::rules::{pattern_models, ConditionalRule, MatchRule, MatchType, Pattern};
use crate::table::AvroPhonetic;
use crate::text::push_char;

verus! {

/// Whether `find` occurs in `text` at position `at`.
pub fn occurs_at(find: &Vec<char>, text: &Vec<char>, at: usize) -> (found: bool)
    ensures
        found == found_at(find@, text@, at as int),
{
    if at > text.len() || find.len() > text.len() - at {
        return false;
    }
    let mut j: usize = 0;
    while j < find.len()
        invariant
            j <= find.len(),
            at + find.len() <= text.len(),
            forall|m: int| 0 <= m < j ==> text@[at + m] == find@[m],
        decreases find.len() - j,
    {
        if text[at + j] != find[j] {
            assert(text@.subrange(at as int, at + find.len())[j as int] == text@[at + j]);
            return false;
        }
        j += 1;
    }
    assert(text@.subrange(at as int, at + find.len()) =~= find@);
    true
}

/// The index of the first pattern of `bucket` whose `find` occurs in `text`
/// at position `at`.
pub fn first_match_in(bucket: &Vec<Pattern>, text: &Vec<char>, at: usize) -> (found: Option<usize>)
    ensures
        match found {
            Some(k) => k < bucket.len() && first_match(pattern_models(bucket@), text@, at as int, 0)
                == Some(k as int),
            None => first_match(pattern_models(bucket@), text@, at as int, 0) is None,
        },
{
    let ghost models = pattern_models(bucket@);
    let mut k: usize = 0;
    while k < bucket.len()
        invariant
            k <= bucket.len(),
            models == pattern_models(bucket@),
            first_match(models, text@, at as int, 0) == first_match(models, text@, at as int, k as int),
        decreases bucket.len() - k,
    {
        assert(models[k as int].find == bucket@[k as int].find@);
        if occurs_at(&bucket[k].find, text, at) {
            return Some(k);
        }
        k += 1;
    }
    None
}

impl AvroPhonetic {
    /// Whether `condition` holds of the character `c`.
    pub fn condition_holds(&self, condition: &MatchRule, c: char) -> (holds: bool)
        ensures
            holds == self@.condition_holds(*condition, c),
    {
        if condition.scope.exact {
            if let Some(exact) = condition.exact_value {
                return c == exact;
            }
        }
        if condition.scope.not_exact {
            if let Some(exact) = condition.exact_value {
                return c != exact;
            }
        }
        let mut holds = true;
        if condition.scope.consonant {
            holds = holds && self.is_consonant(&c);
        }
        if condition.scope.not_consonant {
            holds = holds && !self.is_consonant(&c);
        }
        if condition.scope.vowel {
            holds = holds && self.is_vowel(&c);
        }
        if condition.scope.not_vowel {
            holds = holds && !self.is_vowel(&c);
        }
        if condition.scope.punctuation {
            holds = holds && self.is_punctuation(&c);
        }
        if condition.scope.not_punctuation {
            holds = holds && !self.is_punctuation(&c);
        }
        holds
    }

    /// Whether `condition` holds for the span `start..=end` of `text`,
    /// positions counted in characters. A neighbour outside the text is
    /// taken to be a space.
    pub fn check_condition(&self, condition: &MatchRule, text: &str, start: usize, end: usize) -> (holds: bool)
        ensures
            holds == self@.check_condition(*condition, text@, start as int, end as int),
    {
        let len = text.unicode_len();
        let c = match condition.match_type {
            MatchType::Prefix => if start >= 1 && start - 1 < len {
                text.get_char(start - 1)
            } else {
                ' '
            },
            MatchType::Suffix => if end < len && end + 1 < len {
                text.get_char(end + 1)
            } else {
                ' '
            },
        };
        self.condition_holds(condition, c)
    }

    /// [`AvroPhonetic::check_condition`] on a text held as characters.
    pub fn check_condition_chars(
        &self,
        condition: &MatchRule,
        text: &Vec<char>,
        start: usize,
        end: usize,
    ) -> (holds: bool)
        ensures
            holds == self@.check_condition(*condition, text@, start as int, end as int),
    {
        let len = text.len();
        let c = match condition.match_type {
            MatchType::Prefix => if start >= 1 && start - 1 < len {
                text[start - 1]
            } else {
                ' '
            },
            MatchType::Suffix => if end < len && end + 1 < len {
                text[end + 1]
            } else {
                ' '
            },
        };
        self.condition_holds(condition, c)
    }

    /// Whether every condition of `rule` holds for the span `start..=end`.
    pub fn rule_passes(&self, rule: &ConditionalRule, text: &Vec<char>, start: usize, end: usize) -> (passes: bool)
        ensures
            passes == self@.rule_passes(rule@, text@, start as int, end as int),
    {
        let mut k: usize = 0;
        while k < rule.conditions.len()
            invariant
                k <= rule.conditions.len(),
                forall|m: int|
                    0 <= m < k ==> self@.check_condition(
                        #[trigger] rule@.conditions[m],
                        text@,
                        start as int,
                        end as int,
                    ),
            decreases rule.conditions.len() - k,
        {
            if !self.check_condition_chars(&rule.conditions[k], text, start, end) {
                assert(rule@.conditions[k as int] == rule.conditions@[k as int]);
                return false;
            }
            k += 1;
        }
        true
    }

    /// The replacement that `pattern` contributes for the span
    /// `start..=end`: that of its first rule that passes, its default where
    /// none does.
    pub fn choose_replacement<'a>(
        &self,
        pattern: &'a Pattern,
        text: &Vec<char>,
        start: usize,
        end: usize,
    ) -> (chosen: &'a String)
        ensures
            chosen@ == self@.replacement(pattern@, text@, start as int, end as int),
    {
        let mut r: usize = 0;
        while r < pattern.conditional_rules.len()
            invariant
                r <= pattern.conditional_rules.len(),
                self@.replacement(pattern@, text@, start as int, end as int)
                    == self@.replacement_from(pattern@, text@, start as int, end as int, r as int),
            decreases pattern.conditional_rules.len() - r,
        {
            assert(pattern@.rules[r as int] == pattern.conditional_rules@[r as int]@);
            if self.rule_passes(&pattern.conditional_rules[r], text, start, end) {
                return &pattern.conditional_rules[r].replacement;
            }
            r += 1;
        }
        &pattern.default_replace
    }

    /// The longest match at position `at`: its length and the selected
    /// pattern.
    pub fn longest_match(&self, text: &Vec<char>, at: usize) -> (found: Option<(usize, &Pattern)>)
        requires
            at <= text.len(),
        ensures
            match found {
                Some((len, pattern)) => {
                    &&& 1 <= len <= text.len() - at
                    &&& len == self@.longest_match(text@, at as int)
                    &&& self@.selected(text@, at as int) == pattern@
                },
                None => self@.longest_match(text@, at as int) == 0,
            },
    {
        let remaining = text.len() - at;
        let max = self.max_pattern_length();
        let limit = if max <= remaining {
            max
        } else {
            remaining
        };
        let mut length = limit;
        while length >= 1
            invariant
                length <= limit,
                limit == self@.length_limit(text@, at as int),
                limit <= remaining,
                limit <= max,
                max == self@.max_pattern_length(),
                self@.longest_match(text@, at as int) == self@.match_length(
                    text@,
                    at as int,
                    length as int,
                ),
            decreases length,
        {
            match self.patterns_by_length.get(&length) {
                Some(bucket) => {
                    assert(self@.buckets[length as int] == pattern_models(bucket@));
                    match first_match_in(bucket, text, at) {
                        Some(k) => {
                            return Some((length, &bucket[k]));
                        },
                        None => {},
                    }
                },
                None => {
                    assert(self@.buckets[length as int] =~= Seq::empty());
                },
            }
            length -= 1;
        }
        None
    }

    /// Converts `input`: normalizes its case, then rewrites it left to
    /// right, at each position by the longest pattern that matches there,
    /// and passes a character through where none does.
    pub fn convert(&self, input: &str) -> (output: String)
        ensures
            output@ == self@.convert(input@),
    {
        let text = self.fix_chars(input);
        let mut output = String::new();
        let mut i: usize = 0;
        while i < text.len()
            invariant
                i <= text.len(),
                self@.scan(text@, 0) == output@ + self@.scan(text@, i as int),
            decreases text.len() - i,
        {
            let ghost before = output@;
            match self.longest_match(&text, i) {
                Some((len, pattern)) => {
                    let replacement = self.choose_replacement(pattern, &text, i, i + len - 1);
                    output.append(replacement.as_str());
                    proof {
                        assert(self@.scan(text@, i as int) == replacement@ + self@.scan(
                            text@,
                            i + len,
                        ));
                        assert(before + (replacement@ + self@.scan(text@, i + len)) =~= (before
                            + replacement@) + self@.scan(text@, i + len));
                    }
                    i += len;
                },
                None => {
                    push_char(&mut output, text[i]);
                    proof {
                        assert(before.push(text@[i as int]) =~= before + seq![text@[i as int]]);
                        assert(before + (seq![text@[i as int]] + self@.scan(text@, i + 1)) =~= (
                        before + seq![text@[i as int]]) + self@.scan(text@, i + 1));
                    }
                    i += 1;
                },
            }
        }
        assert(self@.scan(text@, text@.len() as int) =~= Seq::<char>::empty());
        assert(output@ + Seq::<char>::empty() =~= output@);
        output
    }
}

} // verus!
