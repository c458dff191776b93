//! The rule table: patterns bucketed by the length of their `find`, and
//! the three character classes.

use std::collections::HashMap;
use vstd::prelude::*;
use crate::model::TableModel;
use crate::rules::{pattern_models, Pattern, PatternModel};
use crate::text::{ascii_lower, chars_of, string_of};

verus! {

/// A rule table. It is built once and only read by conversion.
#[derive(Debug)]
pub struct AvroPhonetic {
    pub(crate) patterns_by_length: HashMap<usize, Vec<Pattern>>,
    pub(crate) max_pattern_length: usize,
    pub(crate) vowel_set: Vec<char>,
    pub(crate) consonant_set: Vec<char>,
    pub(crate) case_sensitive_set: Vec<char>,
}

/// The buckets that a map from lengths to patterns stands for, up to the
/// length `max`: the bucket of a length without an entry is empty, and a
/// map without patterns stands for no bucket at all.
pub open spec fn bucket_models(map: Map<usize, Vec<Pattern>>, max: usize) -> Seq<Seq<PatternModel>> {
    Seq::new(
        if max == 0 && !map.contains_key(0) {
            0
        } else {
            (max + 1) as nat
        },
        |len: int|
            if 0 <= len <= usize::MAX && map.contains_key(len as usize) {
                pattern_models(map[len as usize]@)
            } else {
                Seq::empty()
            },
    )
}

impl View for AvroPhonetic {
    type V = TableModel;

    open(crate) spec fn view(&self) -> TableModel {
        TableModel {
            buckets: bucket_models(self.patterns_by_length@, self.max_pattern_length),
            vowels: self.vowel_set@,
            consonants: self.consonant_set@,
            case_sensitive: self.case_sensitive_set@,
        }
    }
}

/// Whether `c` occurs in `set`.
pub(crate) fn contains_char(set: &Vec<char>, c: char) -> (found: bool)
    ensures
        found == set@.contains(c),
{
    let mut i: usize = 0;
    while i < set.len()
        invariant
            i <= set.len(),
            forall|k: int| 0 <= k < i ==> set@[k] != c,
        decreases set.len() - i,
    {
        if set[i] == c {
            return true;
        }
        i += 1;
    }
    false
}

/// Adding a pattern keeps every pattern in the bucket of its length.
pub proof fn lemma_with_pattern_wf(table: TableModel, pattern: crate::rules::PatternModel)
    requires
        table.wf(),
    ensures
        table.with_pattern(pattern).wf(),
{
    let next = table.with_pattern(pattern);
    let len = pattern.find.len() as int;
    assert forall|n: int, k: int|
        0 <= n < next.buckets.len() && 0 <= k < next.buckets[n].len() implies (
    #[trigger] next.buckets[n][k]).find.len() == n by {
        if n < table.buckets.len() && !(n == len && k == table.buckets[n].len()) {
            assert(next.buckets[n][k] == table.buckets[n][k]);
        }
    }
}

impl AvroPhonetic {
    /// The table's invariant: that of its model, and no bucket for a length
    /// above `max_pattern_length`.
    pub open(crate) spec fn wf(&self) -> bool {
        &&& self@.wf()
        &&& forall|len: usize| #[trigger]
            self.patterns_by_length@.contains_key(len) ==> len <= self.max_pattern_length
    }

    /// The model of a well-formed table is well formed.
    pub proof fn lemma_wf_model(&self)
        requires
            self.wf(),
        ensures
            self@.wf(),
    {
    }

    /// A table with no pattern and empty character classes.
    pub fn new() -> (table: AvroPhonetic)
        ensures
            table.wf(),
            table@ == TableModel::vacant(),
    {
        let table = AvroPhonetic {
            patterns_by_length: HashMap::new(),
            max_pattern_length: 0,
            vowel_set: Vec::new(),
            consonant_set: Vec::new(),
            case_sensitive_set: Vec::new(),
        };
        assert(table@.buckets =~= Seq::empty());
        table
    }

    /// Replaces the three character classes by the characters of the given
    /// strings.
    pub fn set_character_classes(&mut self, vowels: &str, consonants: &str, case_sensitive: &str)
        ensures
            final(self)@ == (TableModel {
                vowels: vowels@,
                consonants: consonants@,
                case_sensitive: case_sensitive@,
                ..old(self)@
            }),
            old(self).wf() ==> final(self).wf(),
    {
        self.vowel_set = chars_of(vowels);
        self.consonant_set = chars_of(consonants);
        self.case_sensitive_set = chars_of(case_sensitive);
    }

    /// Appends `pattern` to the bucket of its `find` length.
    pub fn add_pattern(&mut self, pattern: Pattern)
        requires
            old(self).wf(),
        ensures
            final(self)@ == old(self)@.with_pattern(pattern@),
            final(self).wf(),
    {
        let len = pattern.find.len();
        let ghost before = self@;
        let ghost model = pattern@;
        let mut bucket = match self.patterns_by_length.remove(&len) {
            Some(bucket) => bucket,
            None => Vec::new(),
        };
        let ghost held = pattern_models(bucket@);
        bucket.push(pattern);
        assert(pattern_models(bucket@) =~= held.push(model));
        self.patterns_by_length.insert(len, bucket);
        if len > self.max_pattern_length {
            self.max_pattern_length = len;
        }
        proof {
            let want = before.with_pattern(model);
            assert(self@.buckets.len() == want.buckets.len());
            assert forall|i: int| 0 <= i < want.buckets.len() implies self@.buckets[i]
                == want.buckets[i] by {
                if i != len {
                    assert(self.patterns_by_length@.contains_key(i as usize) == old(
                        self,
                    ).patterns_by_length@.contains_key(i as usize));
                }
            }
            assert(self@.buckets =~= want.buckets);
            lemma_with_pattern_wf(before, model);
        }
    }

    /// The length of the longest `find` in the table, 0 for an empty table.
    pub fn max_pattern_length(&self) -> (len: usize)
        ensures
            len == self@.max_pattern_length(),
    {
        self.max_pattern_length
    }

    /// Whether `c`, case-folded, is a vowel.
    pub fn is_vowel(&self, c: &char) -> (found: bool)
        ensures
            found == self@.is_vowel(*c),
    {
        contains_char(&self.vowel_set, c.to_ascii_lowercase())
    }

    /// Whether `c`, case-folded, is a consonant.
    pub fn is_consonant(&self, c: &char) -> (found: bool)
        ensures
            found == self@.is_consonant(*c),
    {
        contains_char(&self.consonant_set, c.to_ascii_lowercase())
    }

    /// Whether `c` is neither a vowel nor a consonant.
    pub fn is_punctuation(&self, c: &char) -> (found: bool)
        ensures
            found == self@.is_punctuation(*c),
    {
        !self.is_vowel(c) && !self.is_consonant(c)
    }

    /// Whether `c`, case-folded, is exempt from lowercasing.
    pub fn is_case_sensitive(&self, c: &char) -> (found: bool)
        ensures
            found == self@.is_case_sensitive(*c),
    {
        contains_char(&self.case_sensitive_set, c.to_ascii_lowercase())
    }

    /// The normalized characters of `input`: case-sensitive characters as
    /// they are, all others in ASCII lower case.
    pub fn fix_chars(&self, input: &str) -> (fixed: Vec<char>)
        ensures
            fixed@ == self@.fix_string(input@),
    {
        let chars = chars_of(input);
        let mut fixed: Vec<char> = Vec::new();
        let mut i: usize = 0;
        while i < chars.len()
            invariant
                i <= chars.len(),
                chars@ == input@,
                fixed@ == self@.fix_string(input@).take(i as int),
            decreases chars.len() - i,
        {
            let c = chars[i];
            if self.is_case_sensitive(&c) {
                fixed.push(c);
            } else {
                fixed.push(c.to_ascii_lowercase());
            }
            i += 1;
            assert(fixed@ =~= self@.fix_string(input@).take(i as int));
        }
        assert(fixed@ =~= self@.fix_string(input@));
        fixed
    }

    /// The normalized copy of `input` on which matching works.
    pub fn fix_string(&self, input: &str) -> (fixed: String)
        ensures
            fixed@ == self@.fix_string(input@),
    {
        let chars = self.fix_chars(input);
        string_of(&chars)
    }
}

} // verus!
