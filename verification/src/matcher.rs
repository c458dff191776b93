//! Fuzzy matching of candidates against a query, scored by the skim
//! algorithm of the `fuzzy-matcher` crate, and the ranking of the matches.

use vstd::prelude::*;
use vstd::string::*;
use fuzzy_matcher::FuzzyMatcher;

verus! {

/// The score that the skim matcher, in its default configuration, gives
/// `choice` for `pattern`; `None` where `pattern` does not match.
pub uninterp spec fn skim_score(choice: Seq<char>, pattern: Seq<char>) -> Option<i64>;

/// `SkimMatcherV2::fuzzy_match` on a matcher in its default configuration.
/// The score is a function of the two strings alone, and an empty pattern
/// scores 0 on every choice.
#[verifier::external_body]
fn skim_match(choice: &str, pattern: &str) -> (score: Option<i64>)
    ensures
        score == skim_score(choice@, pattern@),
        pattern@.len() == 0 ==> score == Some(0i64),
{
    fuzzy_matcher::skim::SkimMatcherV2::default().fuzzy_match(choice, pattern)
}

/// The relevance that a raw score stands for: the score itself where it is
/// positive, no match otherwise.
pub open spec fn relevance(raw: Option<i64>) -> Option<i64> {
    match raw {
        Some(score) => if score >= 1 {
            Some(score)
        } else {
            None
        },
        None => None,
    }
}

/// The relevance that a raw score stands for.
pub fn relevant_score(raw: Option<i64>) -> (result: Option<i64>)
    ensures
        result == relevance(raw),
{
    match raw {
        Some(score) => if score >= 1 {
            Some(score)
        } else {
            None
        },
        None => None,
    }
}

/// The number that a raw score is handed on as: the score itself, -1 for no
/// match.
pub open spec fn score_number(raw: Option<i64>) -> i64 {
    match raw {
        Some(score) => score,
        None => -1i64,
    }
}

/// The number that a raw score is handed on as.
pub fn score_or_none(raw: Option<i64>) -> (number: i64)
    ensures
        number == score_number(raw),
{
    match raw {
        Some(score) => score,
        None => -1,
    }
}

/// The raw score of `choice` for the query `pattern`, -1 where the query
/// does not match. An empty query scores 0.
pub fn fuzzy_score(choice: &str, pattern: &str) -> (number: i64)
    ensures
        number == score_number(skim_score(choice@, pattern@)),
        pattern@.len() == 0 ==> number == 0,
{
    score_or_none(skim_match(choice, pattern))
}

/// The relevance of `choice` for the query `pattern`: a positive score, or
/// `None` where the query does not match. An empty query matches nothing.
pub fn fuzzy_match(choice: &str, pattern: &str) -> (result: Option<i64>)
    ensures
        result == relevance(skim_score(choice@, pattern@)),
        pattern@.len() == 0 ==> result is None,
{
    relevant_score(skim_match(choice, pattern))
}

/// The lower-case form that std gives a text.
pub uninterp spec fn lowercase(text: Seq<char>) -> Seq<char>;

/// `str::to_lowercase` of std: the lower-case equivalent of the text, as a
/// new string. It is a function of the text alone.
#[verifier::external_body]
fn to_lowercase(text: &str) -> (lower: String)
    ensures
        lower@ == lowercase(text@),
{
    text.to_lowercase()
}

/// Whether the candidate at index `a` stands before the one at index `b`
/// in a ranking: the higher score first, and of two equal scores the
/// candidate that came first.
pub open spec fn ranks_before(scores: Seq<Option<i64>>, a: int, b: int) -> bool {
    scores[a]->0 > scores[b]->0 || (scores[a]->0 == scores[b]->0 && a < b)
}

/// Whether `order` is the ranking of the candidates with the given
/// relevances: it lists indices of candidates that match, it lists every
/// one of them, and each stands before all that rank after it.
pub open spec fn is_ranking(scores: Seq<Option<i64>>, order: Seq<usize>) -> bool {
    &&& forall|p: int|
        0 <= p < order.len() ==> (#[trigger] order[p]) < scores.len() && scores[order[p] as int] is Some
    &&& forall|i: int|
        0 <= i < scores.len() && (#[trigger] scores[i]) is Some ==> order.contains(i as usize)
    &&& forall|p: int, q: int|
        0 <= p < q < order.len() ==> ranks_before(scores, #[trigger] order[p] as int, #[trigger] order[q] as int)
}

/// The ranking of the candidates with the given relevances. There is
/// exactly one: see [`lemma_ranking_unique`].
pub open spec fn ranking(scores: Seq<Option<i64>>) -> Seq<usize> {
    choose|order: Seq<usize>| is_ranking(scores, order)
}

/// The relevances of the candidates `data` for `query`, which is matched
/// in lower case.
pub open spec fn match_scores(data: Seq<String>, query: Seq<char>) -> Seq<Option<i64>> {
    Seq::new(data.len(), |i: int| relevance(skim_score(data[i]@, lowercase(query))))
}

/// Two rankings of the same candidates agree on their first `k` places.
pub proof fn lemma_ranking_prefix(scores: Seq<Option<i64>>, a: Seq<usize>, b: Seq<usize>, k: int)
    requires
        is_ranking(scores, a),
        is_ranking(scores, b),
        0 <= k <= a.len(),
        k <= b.len(),
    ensures
        forall|j: int| 0 <= j < k ==> a[j] == b[j],
    decreases k,
{
    if k > 0 {
        lemma_ranking_prefix(scores, a, b, k - 1);
        let last = k - 1;
        if a[last] != b[last] {
            assert(scores[a[last] as int] is Some);
            assert(scores[b[last] as int] is Some);
            let m = choose|m: int| 0 <= m < b.len() && b[m] == a[last];
            let n = choose|n: int| 0 <= n < a.len() && a[n] == b[last];
            if m < last {
                assert(ranks_before(scores, a[m] as int, a[last] as int));
            } else if n < last {
                assert(ranks_before(scores, b[n] as int, b[last] as int));
            } else {
                assert(ranks_before(scores, b[last] as int, b[m] as int));
                assert(ranks_before(scores, a[last] as int, a[n] as int));
            }
        }
    }
}

/// A ranking lists no candidate twice, so it is no longer than the list of
/// candidates; where every candidate has a score it lists them all.
pub proof fn lemma_ranking_is_permutation(scores: Seq<Option<i64>>, order: Seq<usize>)
    requires
        is_ranking(scores, order),
        scores.len() <= usize::MAX,
    ensures
        order.no_duplicates(),
        order.len() <= scores.len(),
        (forall|i: int| 0 <= i < scores.len() ==> (#[trigger] scores[i]) is Some) ==> order.len()
            == scores.len(),
{
    assert forall|p: int, q: int| 0 <= p < order.len() && 0 <= q < order.len() && p != q implies order[p]
        != order[q] by {
        if p < q {
            assert(ranks_before(scores, order[p] as int, order[q] as int));
        } else {
            assert(ranks_before(scores, order[q] as int, order[p] as int));
        }
    }
    let places = Set::new(|i: int| 0 <= i < scores.len());
    let listed = order.map_values(|i: usize| i as int);
    assert(listed.no_duplicates());
    assert(places =~= vstd::set_lib::set_int_range(0, scores.len() as int));
    vstd::set_lib::lemma_int_range(0, scores.len() as int);
    listed.unique_seq_to_set();
    assert(listed.to_set().subset_of(places)) by {
        assert forall|i: int| listed.to_set().contains(i) implies places.contains(i) by {
            let p = choose|p: int| 0 <= p < listed.len() && listed[p] == i;
            assert(order[p] < scores.len());
        }
    }
    vstd::set_lib::lemma_len_subset(listed.to_set(), places);
    if forall|i: int| 0 <= i < scores.len() ==> (#[trigger] scores[i]) is Some {
        assert(places.subset_of(listed.to_set())) by {
            assert forall|i: int| places.contains(i) implies listed.to_set().contains(i) by {
                assert(scores[i] is Some);
                assert(order.contains(i as usize));
                let p = choose|p: int| 0 <= p < order.len() && order[p] == i as usize;
                assert(listed[p] == i);
            }
        }
        assert(places =~= listed.to_set());
    }
}

/// The ranking is unique: two rankings of the same candidates are equal.
pub proof fn lemma_ranking_unique(scores: Seq<Option<i64>>, a: Seq<usize>, b: Seq<usize>)
    requires
        is_ranking(scores, a),
        is_ranking(scores, b),
    ensures
        a == b,
{
    if a.len() < b.len() {
        lemma_ranking_prefix(scores, a, b, a.len() as int);
        let extra = b[a.len() as int];
        assert(scores[extra as int] is Some);
        let n = choose|n: int| 0 <= n < a.len() && a[n] == extra;
        assert(ranks_before(scores, b[n] as int, b[a.len() as int] as int));
    } else if b.len() < a.len() {
        lemma_ranking_prefix(scores, a, b, b.len() as int);
        let extra = a[b.len() as int];
        assert(scores[extra as int] is Some);
        let n = choose|n: int| 0 <= n < b.len() && b[n] == extra;
        assert(ranks_before(scores, a[n] as int, a[b.len() as int] as int));
    } else {
        lemma_ranking_prefix(scores, a, b, a.len() as int);
        assert(a =~= b);
    }
}

/// The candidates at the places that `order` lists, in its order.
pub open spec fn listed(data: Seq<String>, order: Seq<usize>) -> Seq<String> {
    Seq::new(order.len(), |k: int| data[order[k] as int])
}

/// The scores by which all candidates `data` are listed for `query`: the
/// relevance of each, 0 for one that does not match.
pub open spec fn listing_scores(data: Seq<String>, query: Seq<char>) -> Seq<Option<i64>> {
    Seq::new(
        data.len(),
        |i: int|
            match match_scores(data, query)[i] {
                Some(score) => Some(score),
                None => Some(0i64),
            },
    )
}

/// The score of a candidate that matches.
fn score_at(scores: &Vec<Option<i64>>, index: usize) -> (score: i64)
    requires
        index < scores.len(),
        scores[index as int] is Some,
    ensures
        score == scores[index as int]->0,
{
    match scores[index] {
        Some(score) => score,
        None => 0,
    }
}

/// Whether `order` ranks the first `n` candidates: it is a ranking of
/// those of them that match.
pub open spec fn ranks_first(scores: Seq<Option<i64>>, n: int, order: Seq<usize>) -> bool {
    &&& forall|p: int|
        0 <= p < order.len() ==> (#[trigger] order[p]) < n && scores[order[p] as int] is Some
    &&& forall|j: int| 0 <= j < n && (#[trigger] scores[j]) is Some ==> order.contains(j as usize)
    &&& forall|p: int, q: int|
        0 <= p < q < order.len() ==> ranks_before(scores, #[trigger] order[p] as int, #[trigger] order[q] as int)
}

/// The place at or after `from` at which a candidate with the score
/// `score` enters `order`: before the first one with a lower score.
pub open spec fn place_for(scores: Seq<Option<i64>>, order: Seq<usize>, score: i64, from: int) -> int
    decreases order.len() - from,
{
    if from < 0 || from >= order.len() || scores[order[from] as int]->0 < score {
        from
    } else {
        place_for(scores, order, score, from + 1)
    }
}

/// The place for a score lies after all candidates that score as much or
/// more, and at a candidate that scores less or at the end.
pub proof fn lemma_place_for(scores: Seq<Option<i64>>, order: Seq<usize>, score: i64, from: int)
    requires
        0 <= from <= order.len(),
    ensures
        from <= place_for(scores, order, score, from) <= order.len(),
        forall|q: int|
            from <= q < place_for(scores, order, score, from) ==> scores[(#[trigger] order[q]) as int]->0
                >= score,
        place_for(scores, order, score, from) < order.len() ==> scores[order[place_for(
            scores,
            order,
            score,
            from,
        )] as int]->0 < score,
    decreases order.len() - from,
{
    if from < order.len() && scores[order[from] as int]->0 >= score {
        lemma_place_for(scores, order, score, from + 1);
    }
}

/// A ranking of the first `n` candidates, with candidate `n` put in at its
/// place, ranks the first `n + 1`.
pub proof fn lemma_ranking_insert(scores: Seq<Option<i64>>, n: int, before: Seq<usize>, at: int)
    requires
        0 <= n < scores.len(),
        n <= usize::MAX,
        scores[n] is Some,
        ranks_first(scores, n, before),
        0 <= at <= before.len(),
        forall|q: int| 0 <= q < at ==> scores[(#[trigger] before[q]) as int]->0 >= scores[n]->0,
        at < before.len() ==> scores[before[at] as int]->0 < scores[n]->0,
    ensures
        ranks_first(scores, n + 1, before.insert(at, n as usize)),
{
    before.insert_ensures(at, n as usize);
    let after = before.insert(at, n as usize);
    assert forall|j: int| 0 <= j < n + 1 && (#[trigger] scores[j]) is Some implies after.contains(
        j as usize,
    ) by {
        if j == n {
            assert(after[at] == n as usize);
        } else {
            let q = choose|q: int| 0 <= q < before.len() && before[q] == j as usize;
            if q < at {
                assert(after[q] == before[q]);
            } else {
                assert(after[q + 1] == before[q]);
            }
        }
    }
    assert forall|p: int, q: int| 0 <= p < q < after.len() implies ranks_before(
        scores,
        #[trigger] after[p] as int,
        #[trigger] after[q] as int,
    ) by {
        let a = if p < at {
            p
        } else {
            p - 1
        };
        let b = if q < at {
            q
        } else {
            q - 1
        };
        if p != at {
            assert(after[p] == before[a]);
        }
        if q != at {
            assert(after[q] == before[b]);
        }
        if p == at {
            assert(ranks_before(scores, before[at] as int, before[b] as int) || b == at);
        }
    }
    assert forall|p: int| 0 <= p < after.len() implies (#[trigger] after[p]) < n + 1
        && scores[after[p] as int] is Some by {
        if p < at {
            assert(after[p] == before[p]);
        } else if p > at {
            assert(after[p] == before[p - 1]);
        }
    }
}

/// A ranking of the first `n` candidates.
pub proof fn lemma_ranking_of_first(scores: Seq<Option<i64>>, n: int) -> (order: Seq<usize>)
    requires
        0 <= n <= scores.len(),
        scores.len() <= usize::MAX,
    ensures
        ranks_first(scores, n, order),
    decreases n,
{
    if n == 0 {
        Seq::empty()
    } else {
        let before = lemma_ranking_of_first(scores, n - 1);
        if scores[n - 1] is Some {
            let at = place_for(scores, before, scores[n - 1]->0, 0);
            lemma_place_for(scores, before, scores[n - 1]->0, 0);
            lemma_ranking_insert(scores, n - 1, before, at);
            before.insert(at, (n - 1) as usize)
        } else {
            before
        }
    }
}

/// Every list of candidates has a ranking, and [`ranking`] is it.
pub proof fn lemma_ranking_exists(scores: Seq<Option<i64>>)
    requires
        scores.len() <= usize::MAX,
    ensures
        is_ranking(scores, ranking(scores)),
{
    let order = lemma_ranking_of_first(scores, scores.len() as int);
    assert(is_ranking(scores, order));
}

/// Ranks the candidates that match: the indices of the candidates with a
/// relevance, by descending relevance, candidates of equal relevance in
/// their given order.
#[verifier::loop_isolation(false)]
pub fn rank_by_score(scores: &Vec<Option<i64>>) -> (order: Vec<usize>)
    ensures
        is_ranking(scores@, order@),
        order@ == ranking(scores@),
{
    let mut order: Vec<usize> = Vec::new();
    let mut i: usize = 0;
    while i < scores.len()
        invariant
            i <= scores.len(),
            ranks_first(scores@, i as int, order@),
        decreases scores.len() - i,
    {
        if let Some(score) = scores[i] {
            let mut at: usize = 0;
            while at < order.len() && score_at(scores, order[at]) >= score
                invariant
                    at <= order.len(),
                    forall|q: int| 0 <= q < at ==> scores[(#[trigger] order[q]) as int]->0 >= score,
                decreases order.len() - at,
            {
                at += 1;
            }
            proof {
                lemma_ranking_insert(scores@, i as int, order@, at as int);
            }
            order.insert(at, i);
        }
        i += 1;
    }
    proof {
        assert(is_ranking(scores@, order@));
        lemma_ranking_unique(scores@, order@, ranking(scores@));
    }
    order
}

/// The candidates of `data` that match `query`, best first: each candidate
/// is scored against the query in lower case, those without a positive
/// score are left out, and the others are ranked by [`rank_by_score`].
#[verifier::loop_isolation(false)]
pub fn rank_matches(data: &Vec<String>, query: &str) -> (names: Vec<String>)
    ensures
        names@ == listed(data@, ranking(match_scores(data@, query@))),
{
    let lower_query = to_lowercase(query);
    let mut scores: Vec<Option<i64>> = Vec::new();
    let mut i: usize = 0;
    while i < data.len()
        invariant
            i <= data.len(),
            scores@ =~= match_scores(data@, query@).take(i as int),
        decreases data.len() - i,
    {
        scores.push(fuzzy_match(data[i].as_str(), lower_query.as_str()));
        i += 1;
    }
    assert(scores@ =~= match_scores(data@, query@));
    let order = rank_by_score(&scores);
    names_in_order(data, &order)
}

/// The names at the given places of `data`, in the order of `order`.
fn names_in_order(data: &Vec<String>, order: &Vec<usize>) -> (names: Vec<String>)
    requires
        forall|k: int| 0 <= k < order.len() ==> (#[trigger] order[k]) < data.len(),
    ensures
        names@ == listed(data@, order@),
{
    let mut names: Vec<String> = Vec::new();
    let mut k: usize = 0;
    while k < order.len()
        invariant
            k <= order.len(),
            names@.len() == k,
            forall|m: int| 0 <= m < order.len() ==> (#[trigger] order[m]) < data.len(),
            forall|m: int| 0 <= m < k ==> (#[trigger] names@[m]) == data@[order@[m] as int],
        decreases order.len() - k,
    {
        names.push(data[order[k]].clone());
        k += 1;
    }
    assert(names@ =~= listed(data@, order@));
    names
}

/// All candidates of `data`, those that match `query` best first and the
/// others after them: each is scored against the query in lower case, one
/// that does not match counts as 0, and all are ranked by
/// [`rank_by_score`].
#[verifier::loop_isolation(false)]
pub fn rank_candidates(data: &Vec<String>, query: &str) -> (names: Vec<String>)
    ensures
        names@ == listed(data@, ranking(listing_scores(data@, query@))),
        names@.len() == data@.len(),
{
    let lower_query = to_lowercase(query);
    let mut scores: Vec<Option<i64>> = Vec::new();
    let mut i: usize = 0;
    while i < data.len()
        invariant
            i <= data.len(),
            scores@ =~= listing_scores(data@, query@).take(i as int),
        decreases data.len() - i,
    {
        let score = match fuzzy_match(data[i].as_str(), lower_query.as_str()) {
            Some(score) => score,
            None => 0,
        };
        scores.push(Some(score));
        i += 1;
    }
    assert(scores@ =~= listing_scores(data@, query@));
    let order = rank_by_score(&scores);
    proof {
        lemma_ranking_is_permutation(scores@, order@);
    }
    names_in_order(data, &order)
}

} // verus!
