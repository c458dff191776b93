//! Properties of transliteration, proved of the model that the engine
//! computes.

use vstd::prelude::*;
use crate::model::{first_match, found_at, neighbor, TableModel};
use crate::rules::{MatchRule, MatchType, PatternModel};
use crate::text::ascii_lower;

verus! {

/// Where no pattern at or after `from` occurs, the search finds none.
pub proof fn lemma_first_match_none(bucket: Seq<PatternModel>, text: Seq<char>, at: int, from: int)
    requires
        0 <= from,
        forall|k: int| from <= k < bucket.len() ==> !found_at(#[trigger] bucket[k].find, text, at),
    ensures
        first_match(bucket, text, at, from) is None,
    decreases bucket.len() - from,
{
    if from < bucket.len() {
        assert(!found_at(bucket[from].find, text, at));
        lemma_first_match_none(bucket, text, at, from + 1);
    }
}

/// Where the pattern at index `k` occurs, the search finds a pattern that
/// occurs, at `k` or before it.
pub proof fn lemma_first_match_some(bucket: Seq<PatternModel>, text: Seq<char>, at: int, from: int, k: int)
    requires
        0 <= from <= k < bucket.len(),
        found_at(bucket[k].find, text, at),
    ensures
        first_match(bucket, text, at, from) is Some,
        from <= first_match(bucket, text, at, from)->0 <= k,
        found_at(bucket[first_match(bucket, text, at, from)->0].find, text, at),
    decreases k - from,
{
    if !found_at(bucket[from].find, text, at) {
        lemma_first_match_some(bucket, text, at, from + 1, k);
    }
}

/// What the search returns is the index of a pattern that occurs.
pub proof fn lemma_first_match_found(bucket: Seq<PatternModel>, text: Seq<char>, at: int, from: int)
    requires
        first_match(bucket, text, at, from) is Some,
    ensures
        0 <= from <= first_match(bucket, text, at, from)->0 < bucket.len(),
        found_at(bucket[first_match(bucket, text, at, from)->0].find, text, at),
    decreases bucket.len() - from,
{
    if 0 <= from < bucket.len() && !found_at(bucket[from].find, text, at) {
        lemma_first_match_found(bucket, text, at, from + 1);
    }
}

/// The longest match within a limit is 0 or a length, within the limit, at
/// which a pattern matches.
pub proof fn lemma_match_length_range(table: TableModel, text: Seq<char>, at: int, limit: int)
    ensures
        table.match_length(text, at, limit) == 0 || ({
            &&& 1 <= table.match_length(text, at, limit) <= limit
            &&& table.match_length(text, at, limit) < table.buckets.len()
            &&& first_match(table.buckets[table.match_length(text, at, limit)], text, at, 0) is Some
        }),
    decreases limit,
{
    if limit > 0 {
        lemma_match_length_range(table, text, at, limit - 1);
    }
}

/// A pattern that occurs at a length within the limit makes the longest
/// match at least that long.
pub proof fn lemma_match_length_at_least(table: TableModel, text: Seq<char>, at: int, limit: int, len: int)
    requires
        1 <= len <= limit,
        len < table.buckets.len(),
        first_match(table.buckets[len], text, at, 0) is Some,
    ensures
        table.match_length(text, at, limit) >= len,
    decreases limit,
{
    lemma_match_length_range(table, text, at, limit);
    if limit > len {
        lemma_match_length_at_least(table, text, at, limit - 1, len);
    }
}

/// Where no pattern of a length within the limit occurs, there is no match.
pub proof fn lemma_match_length_zero(table: TableModel, text: Seq<char>, at: int, limit: int)
    requires
        forall|len: int, k: int|
            1 <= len < table.buckets.len() && 0 <= k < table.buckets[len].len() ==> !#[trigger] found_at(
                table.buckets[len][k].find,
                text,
                at,
            ),
    ensures
        table.match_length(text, at, limit) == 0,
    decreases limit,
{
    if limit > 0 {
        if limit < table.buckets.len() {
            let bucket = table.buckets[limit];
            assert forall|k: int| 0 <= k < bucket.len() implies !found_at(
                #[trigger] bucket[k].find,
                text,
                at,
            ) by {
                assert(!found_at(table.buckets[limit][k].find, text, at));
            }
            lemma_first_match_none(bucket, text, at, 0);
        }
        lemma_match_length_zero(table, text, at, limit - 1);
    }
}

/// Where no pattern occurs at any position from `at` on, the scan from `at`
/// returns the rest of the text unchanged.
pub proof fn lemma_scan_without_match(table: TableModel, text: Seq<char>, at: int)
    requires
        0 <= at <= text.len(),
        forall|pos: int, len: int, k: int|
            at <= pos < text.len() && 1 <= len < table.buckets.len() && 0 <= k
                < table.buckets[len].len() ==> !#[trigger] found_at(
                table.buckets[len][k].find,
                text,
                pos,
            ),
    ensures
        table.scan(text, at) == text.subrange(at, text.len() as int),
    decreases text.len() - at,
{
    if at < text.len() {
        lemma_match_length_zero(table, text, at, table.length_limit(text, at));
        lemma_scan_without_match(table, text, at + 1);
        assert(seq![text[at]] + text.subrange(at + 1, text.len() as int) =~= text.subrange(
            at,
            text.len() as int,
        ));
    } else {
        assert(text.subrange(at, text.len() as int) =~= Seq::<char>::empty());
    }
}

/// The empty input is converted to the empty output.
pub proof fn lemma_convert_empty(table: TableModel)
    ensures
        table.convert(Seq::empty()) == Seq::<char>::empty(),
{
    assert(table.fix_string(Seq::empty()) =~= Seq::<char>::empty());
}

/// Identity on input without a match: where no pattern of the table occurs
/// at any position of the normalized input, conversion returns the
/// normalized input.
pub proof fn lemma_identity_without_match(table: TableModel, input: Seq<char>)
    requires
        forall|pos: int, len: int, k: int|
            0 <= pos < input.len() && 1 <= len < table.buckets.len() && 0 <= k
                < table.buckets[len].len() ==> !#[trigger] found_at(
                table.buckets[len][k].find,
                table.fix_string(input),
                pos,
            ),
    ensures
        table.convert(input) == table.fix_string(input),
{
    let text = table.fix_string(input);
    lemma_scan_without_match(table, text, 0);
    assert(text.subrange(0, text.len() as int) =~= text);
}

/// Longest-match precedence: where a pattern of length `len` occurs at
/// position `at`, the match chosen there is at least `len` long, the
/// selected pattern occurs there with exactly the chosen length, and it is
/// no pattern of a shorter length.
pub proof fn lemma_longest_match_precedence(table: TableModel, text: Seq<char>, at: int, len: int, k: int)
    requires
        table.wf(),
        0 <= at < text.len(),
        1 <= len < table.buckets.len(),
        0 <= k < table.buckets[len].len(),
        found_at(table.buckets[len][k].find, text, at),
    ensures
        len <= table.longest_match(text, at) <= text.len() - at,
        table.selected(text, at).find.len() == table.longest_match(text, at),
        found_at(table.selected(text, at).find, text, at),
        forall|short: int, j: int|
            0 <= short < len && 0 <= j < table.buckets[short].len() ==> table.selected(text, at)
                != #[trigger] table.buckets[short][j],
{
    let limit = table.length_limit(text, at);
    assert(table.buckets[len][k].find.len() == len);
    lemma_first_match_some(table.buckets[len], text, at, 0, k);
    lemma_match_length_at_least(table, text, at, limit, len);
    lemma_match_length_range(table, text, at, limit);
    let best = table.longest_match(text, at);
    lemma_first_match_found(table.buckets[best], text, at, 0);
    let chosen = first_match(table.buckets[best], text, at, 0)->0;
    assert(table.buckets[best][chosen].find.len() == best);
    assert forall|short: int, j: int|
        0 <= short < len && 0 <= j < table.buckets[short].len() implies table.selected(text, at)
        != #[trigger] table.buckets[short][j] by {
        assert(table.buckets[short][j].find.len() == short);
    }
}

/// Rule order: the replacement of a pattern is that of its first rule, in
/// definition order, that passes, whatever later rules would pass too.
pub proof fn lemma_first_passing_rule_wins(
    table: TableModel,
    pattern: PatternModel,
    text: Seq<char>,
    start: int,
    end: int,
    first: int,
)
    requires
        0 <= first < pattern.rules.len(),
        table.rule_passes(pattern.rules[first], text, start, end),
        forall|earlier: int|
            0 <= earlier < first ==> !table.rule_passes(
                #[trigger] pattern.rules[earlier],
                text,
                start,
                end,
            ),
    ensures
        table.replacement(pattern, text, start, end) == pattern.rules[first].replacement,
{
    lemma_replacement_skips(table, pattern, text, start, end, 0, first);
}

/// Where no rule passes, the replacement of a pattern is its default.
pub proof fn lemma_default_without_passing_rule(
    table: TableModel,
    pattern: PatternModel,
    text: Seq<char>,
    start: int,
    end: int,
)
    requires
        forall|k: int|
            0 <= k < pattern.rules.len() ==> !table.rule_passes(
                #[trigger] pattern.rules[k],
                text,
                start,
                end,
            ),
    ensures
        table.replacement(pattern, text, start, end) == pattern.default_replace,
{
    lemma_replacement_skips(table, pattern, text, start, end, 0, pattern.rules.len() as int);
}

/// Rules that do not pass are skipped.
pub proof fn lemma_replacement_skips(
    table: TableModel,
    pattern: PatternModel,
    text: Seq<char>,
    start: int,
    end: int,
    from: int,
    to: int,
)
    requires
        0 <= from <= to <= pattern.rules.len(),
        forall|k: int|
            from <= k < to ==> !table.rule_passes(#[trigger] pattern.rules[k], text, start, end),
    ensures
        table.replacement_from(pattern, text, start, end, from) == table.replacement_from(
            pattern,
            text,
            start,
            end,
            to,
        ),
    decreases to - from,
{
    if from < to {
        assert(!table.rule_passes(pattern.rules[from], text, start, end));
        lemma_replacement_skips(table, pattern, text, start, end, from + 1, to);
    }
}

/// Boundary neighbours: before the first character of the text and after
/// its last one a condition sees a space, so a prefix condition of a span
/// that starts at 0, and a suffix condition of a span that ends at the last
/// character, are decided as on a space.
pub proof fn lemma_boundary_neighbor(
    table: TableModel,
    condition: MatchRule,
    text: Seq<char>,
    start: int,
    end: int,
)
    ensures
        neighbor(text, MatchType::Prefix, 0, end) == ' ',
        neighbor(text, MatchType::Suffix, start, text.len() - 1) == ' ',
        condition.match_type == MatchType::Prefix ==> table.check_condition(condition, text, 0, end)
            == table.condition_holds(condition, ' '),
        condition.match_type == MatchType::Suffix ==> table.check_condition(
            condition,
            text,
            start,
            text.len() - 1,
        ) == table.condition_holds(condition, ' '),
        !table.vowels.contains(' ') && !table.consonants.contains(' ') ==> table.is_punctuation(' '),
{
}

/// Case-sensitive passthrough: a case-sensitive character keeps its case
/// in the normalized copy, and where no pattern matches at its position it
/// is the next character of the output as it was typed.
pub proof fn lemma_case_sensitive_passthrough(table: TableModel, input: Seq<char>, at: int)
    requires
        0 <= at < input.len(),
        table.is_case_sensitive(input[at]),
    ensures
        table.fix_string(input).len() == input.len(),
        table.fix_string(input)[at] == input[at],
        table.longest_match(table.fix_string(input), at) == 0 ==> table.scan(
            table.fix_string(input),
            at,
        ) == seq![input[at]] + table.scan(table.fix_string(input), at + 1),
{
    lemma_match_length_range(
        table,
        table.fix_string(input),
        at,
        table.length_limit(table.fix_string(input), at),
    );
}

/// In a well-formed table no `find` is longer than `max_pattern_length`,
/// and where that is positive some `find` is exactly that long.
pub proof fn lemma_max_pattern_length(table: TableModel)
    requires
        table.wf(),
    ensures
        forall|len: int, k: int|
            0 <= len < table.buckets.len() && 0 <= k < table.buckets[len].len() ==> (
            #[trigger] table.buckets[len][k]).find.len() <= table.max_pattern_length(),
        table.max_pattern_length() > 0 ==> table.buckets[table.max_pattern_length() as int].len() > 0
            && table.buckets[table.max_pattern_length() as int][0].find.len()
            == table.max_pattern_length(),
{
}

/// Classification is total: every character is a vowel, a consonant or
/// punctuation, and punctuation is neither of the other two. Where the
/// vowel and consonant sets share no character, every character is in
/// exactly one class.
pub proof fn lemma_classification(table: TableModel, c: char)
    ensures
        table.is_vowel(c) || table.is_consonant(c) || table.is_punctuation(c),
        table.is_punctuation(c) ==> !table.is_vowel(c) && !table.is_consonant(c),
        (forall|shared: char| !(table.vowels.contains(shared) && table.consonants.contains(shared)))
            ==> !(table.is_vowel(c) && table.is_consonant(c)),
{
}

/// Every other character is passed to matching in ASCII lower case.
pub proof fn lemma_fix_string_folds(table: TableModel, input: Seq<char>, at: int)
    requires
        0 <= at < input.len(),
        !table.is_case_sensitive(input[at]),
    ensures
        table.fix_string(input)[at] == crate::text::ascii_lower(input[at]),
{
}

/// Normalizing is idempotent: a normalized character is its own normal
/// form.
pub proof fn lemma_fix_char_idempotent(table: TableModel, c: char)
    ensures
        table.fix_char(table.fix_char(c)) == table.fix_char(c),
{
    assert(ascii_lower(ascii_lower(c)) == ascii_lower(c));
}

/// What is left of a normalized text after its first `from` characters is
/// its own normal form.
pub proof fn lemma_fix_string_of_rest(table: TableModel, input: Seq<char>, from: int)
    requires
        0 <= from <= input.len(),
    ensures
        table.fix_string(table.fix_string(input).skip(from)) == table.fix_string(input).skip(from),
{
    let text = table.fix_string(input);
    assert forall|i: int| 0 <= i < text.len() - from implies table.fix_string(text.skip(from))[i]
        == text.skip(from)[i] by {
        lemma_fix_char_idempotent(table, input[from + i]);
    }
    assert(table.fix_string(text.skip(from)) =~= text.skip(from));
}

/// Whether no pattern of the table has a conditional rule.
pub open spec fn without_rules(table: TableModel) -> bool {
    forall|len: int, k: int|
        0 <= len < table.buckets.len() && 0 <= k < table.buckets[len].len() ==> (
        #[trigger] table.buckets[len][k]).rules.len() == 0
}

/// A `find` occurs at a position of a text exactly where it occurs in the
/// rest of the text that starts `at` characters earlier.
pub proof fn lemma_found_in_rest(find: Seq<char>, text: Seq<char>, at: int, pos: int)
    requires
        0 <= at <= text.len(),
        0 <= pos,
    ensures
        found_at(find, text, at + pos) == found_at(find, text.skip(at), pos),
{
    if at + pos + find.len() <= text.len() {
        assert(text.subrange(at + pos, at + pos + find.len()) =~= text.skip(at).subrange(
            pos,
            pos + find.len(),
        ));
    }
}

/// The search in a bucket finds the same pattern in the rest of a text as
/// in the text.
pub proof fn lemma_first_match_in_rest(
    bucket: Seq<PatternModel>,
    text: Seq<char>,
    at: int,
    pos: int,
    from: int,
)
    requires
        0 <= at <= text.len(),
        0 <= pos,
    ensures
        first_match(bucket, text, at + pos, from) == first_match(bucket, text.skip(at), pos, from),
    decreases bucket.len() - from,
{
    if 0 <= from < bucket.len() {
        lemma_found_in_rest(bucket[from].find, text, at, pos);
        lemma_first_match_in_rest(bucket, text, at, pos, from + 1);
    }
}

/// The longest match within a limit is the same in the rest of a text as
/// in the text.
pub proof fn lemma_match_length_in_rest(table: TableModel, text: Seq<char>, at: int, pos: int, limit: int)
    requires
        0 <= at <= text.len(),
        0 <= pos,
    ensures
        table.match_length(text, at + pos, limit) == table.match_length(text.skip(at), pos, limit),
    decreases limit,
{
    if limit > 0 {
        if limit < table.buckets.len() {
            lemma_first_match_in_rest(table.buckets[limit], text, at, pos, 0);
        }
        lemma_match_length_in_rest(table, text, at, pos, limit - 1);
    }
}

/// In a table without conditional rules, the scan of a text from a
/// position on gives what the scan of the rest of the text alone gives.
pub proof fn lemma_scan_of_rest(table: TableModel, text: Seq<char>, at: int)
    requires
        without_rules(table),
        0 <= at <= text.len(),
    ensures
        table.scan(text, at) == table.scan(text.skip(at), 0),
    decreases text.len() - at,
{
    let rest = text.skip(at);
    if at == 0 {
        assert(rest =~= text);
    } else if at < text.len() {
        lemma_match_length_in_rest(table, text, at, 0, table.length_limit(text, at));
        lemma_first_match_in_rest(table.buckets[table.longest_match(text, at)], text, at, 0, 0);
        lemma_match_length_range(table, text, at, table.length_limit(text, at));
        let len = table.longest_match(text, at);
        assert(len == table.longest_match(rest, 0));
        if 1 <= len {
            lemma_first_match_found(table.buckets[len], text, at, 0);
            assert(table.selected(text, at) == table.selected(rest, 0));
            assert(table.selected(text, at).rules.len() == 0);
            lemma_scan_of_rest(table, text, at + len);
            lemma_scan_of_rest(table, rest, len);
            assert(rest.skip(len) =~= text.skip(at + len));
        } else {
            lemma_scan_of_rest(table, text, at + 1);
            lemma_scan_of_rest(table, rest, 1);
            assert(rest.skip(1) =~= text.skip(at + 1));
        }
    } else {
        assert(rest.len() == 0);
    }
}

/// Longest-match precedence over the rest of the input, for a table
/// without conditional rules. Where the pattern at place `k` of the bucket
/// of length `len` is the first of its bucket to occur at the start of the
/// normalized input, and no pattern of a greater length occurs there, the
/// conversion is that pattern's replacement followed by the conversion of
/// what is left after `len` characters, whatever shorter patterns occur
/// there too.
pub proof fn lemma_convert_longest_prefix(table: TableModel, input: Seq<char>, len: int, k: int)
    requires
        table.wf(),
        without_rules(table),
        1 <= len < table.buckets.len(),
        0 <= k < table.buckets[len].len(),
        found_at(table.buckets[len][k].find, table.fix_string(input), 0),
        forall|j: int|
            0 <= j < k ==> !found_at((#[trigger] table.buckets[len][j]).find, table.fix_string(input), 0),
        forall|longer: int, j: int|
            len < longer < table.buckets.len() && 0 <= j < table.buckets[longer].len()
                ==> !#[trigger] found_at(table.buckets[longer][j].find, table.fix_string(input), 0),
    ensures
        len <= input.len(),
        table.convert(input) == table.buckets[len][k].default_replace + table.convert(
            table.fix_string(input).skip(len),
        ),
{
    let text = table.fix_string(input);
    assert(table.buckets[len][k].find.len() == len);
    lemma_longest_match_precedence(table, text, 0, len, k);
    let best = table.longest_match(text, 0);
    lemma_match_length_range(table, text, 0, table.length_limit(text, 0));
    lemma_first_match_found(table.buckets[best], text, 0, 0);
    let chosen = first_match(table.buckets[best], text, 0, 0)->0;
    if best > len {
        assert(found_at(table.buckets[best][chosen].find, text, 0));
    }
    assert(best == len);
    lemma_first_match_some(table.buckets[len], text, 0, 0, k);
    if chosen < k {
        assert(found_at(table.buckets[len][chosen].find, text, 0));
    }
    assert(chosen == k);
    assert(table.selected(text, 0) == table.buckets[len][k]);
    assert(table.buckets[len][k].rules.len() == 0);
    lemma_scan_of_rest(table, text, len);
    lemma_fix_string_of_rest(table, input, len);
}

/// The same for distinct finds: where the finds of the bucket of length
/// `len` are pairwise distinct, the pattern of that bucket that occurs at
/// the start of the normalized input is the one applied.
pub proof fn lemma_convert_longest_prefix_distinct(table: TableModel, input: Seq<char>, len: int, k: int)
    requires
        table.wf(),
        without_rules(table),
        1 <= len < table.buckets.len(),
        0 <= k < table.buckets[len].len(),
        found_at(table.buckets[len][k].find, table.fix_string(input), 0),
        forall|i: int, j: int|
            0 <= i < j < table.buckets[len].len() ==> (#[trigger] table.buckets[len][i]).find != (
            #[trigger] table.buckets[len][j]).find,
        forall|longer: int, j: int|
            len < longer < table.buckets.len() && 0 <= j < table.buckets[longer].len()
                ==> !#[trigger] found_at(table.buckets[longer][j].find, table.fix_string(input), 0),
    ensures
        table.convert(input) == table.buckets[len][k].default_replace + table.convert(
            table.fix_string(input).skip(len),
        ),
{
    let text = table.fix_string(input);
    assert forall|j: int| 0 <= j < k implies !found_at(
        (#[trigger] table.buckets[len][j]).find,
        text,
        0,
    ) by {
        assert(table.buckets[len][j].find.len() == len);
        assert(table.buckets[len][k].find.len() == len);
        assert(table.buckets[len][j].find != table.buckets[len][k].find);
    }
    lemma_convert_longest_prefix(table, input, len, k);
}

/// Where no pattern occurs at the start of the normalized input, which is
/// not empty, the conversion is the first character of the normalized
/// input followed by the conversion of what is left after it.
pub proof fn lemma_convert_without_prefix(table: TableModel, input: Seq<char>)
    requires
        without_rules(table),
        input.len() > 0,
        forall|len: int, k: int|
            1 <= len < table.buckets.len() && 0 <= k < table.buckets[len].len() ==> !#[trigger] found_at(
                table.buckets[len][k].find,
                table.fix_string(input),
                0,
            ),
    ensures
        table.convert(input) == seq![table.fix_string(input)[0]] + table.convert(
            table.fix_string(input).skip(1),
        ),
{
    let text = table.fix_string(input);
    lemma_match_length_zero(table, text, 0, table.length_limit(text, 0));
    lemma_scan_of_rest(table, text, 1);
    lemma_fix_string_of_rest(table, input, 1);
}

} // verus!
