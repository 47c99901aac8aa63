//! Ranking known texts by their similarity to a text that is not known, and
//! choosing which of them to suggest.

use crate::registry::{pattern_texts, skeletons, Registry};
use crate::segments::{skeleton, HumaneSegments, Segment};
use crate::text::texts;
use vstd::prelude::*;

verus! {

/// How similar two texts are: the rating that `similar_string` gives, a number
/// from 0 to 1, as the bits of its 64-bit floating-point form. Between 0 and 1
/// these bits order as the numbers do.
pub uninterp spec fn similarity_score(left: Seq<char>, right: Seq<char>) -> u64;

/// The bits of the rating 1, the highest there is.
pub const FULL_SIMILARITY: u64 = 0x3FF0_0000_0000_0000;

/// The bits of the rating 0.4: below it only the best candidate is suggested.
pub const SIMILARITY_FLOOR: u64 = 0x3FD9_9999_9999_999A;

/// The bits of the rating 0.6: below it a candidate after the sixth is not
/// suggested.
pub const LATE_SIMILARITY_FLOOR: u64 = 0x3FE3_3333_3333_3333;

/// The last rank to which the lower floor applies.
pub const LAST_EARLY_RANK: usize = 5;

/// `similar_string::compare_similarity`, whose rating is handed on as the bits
/// that `to_bits` gives. The rating is the length of the longest common
/// subsequence divided by the greater of the two lengths, or 1 for two empty
/// texts, so it lies between 0 and 1 and depends on the two texts alone: the
/// result is named `similarity_score` of the texts.
#[verifier::external_body]
pub(crate) fn similarity(left: &str, right: &str) -> (r: u64)
    ensures
        r == similarity_score(left@, right@),
        r <= FULL_SIMILARITY,
{
    similar_string::compare_similarity(left, right).to_bits()
}

/// The similarity of `target` to each of the options.
pub open spec fn scores_of(target: Seq<char>, options: Seq<Seq<char>>) -> Seq<u64> {
    Seq::new(options.len(), |i: int| similarity_score(target, options[i]))
}

/// The option at position `a` comes before the one at position `b`: it is more
/// similar, or as similar and earlier among the options.
pub open spec fn ranks_before(scores: Seq<u64>, a: int, b: int) -> bool {
    scores[a] > scores[b] || (scores[a] == scores[b] && a < b)
}

/// `ranking` holds the first `n` options, each with its score, in the order
/// in which they rank. As no option ranks before itself, each of them is held
/// once.
pub open spec fn is_ranking(scores: Seq<u64>, ranking: Seq<(usize, u64)>, n: int) -> bool {
    &&& ranking.len() == n
    &&& forall|i: int|
        0 <= i < n ==> (#[trigger] ranking[i]).0 < n && ranking[i].1 == scores[ranking[i].0 as int]
    &&& forall|i: int, j: int|
        0 <= i < j < n ==> ranks_before(
            scores,
            (#[trigger] ranking[i]).0 as int,
            (#[trigger] ranking[j]).0 as int,
        )
}

/// The options by descending similarity to `target`: the position of each
/// option with its score, the most similar first, and of two that are as
/// similar the one that comes first among the options.
pub fn closest_strings(target: &String, options: &Vec<String>) -> (r: Vec<(usize, u64)>)
    ensures
        is_ranking(scores_of(target@, texts(options@)), r@, options@.len() as int),
{
    let ghost scores = scores_of(target@, texts(options@));
    let mut ranking: Vec<(usize, u64)> = Vec::new();
    let mut k: usize = 0;
    while k < options.len()
        invariant
            k <= options.len(),
            scores == scores_of(target@, texts(options@)),
            is_ranking(scores, ranking@, k as int),
        decreases options.len() - k,
    {
        let score = similarity(target.as_str(), options[k].as_str());
        assert(score == scores[k as int]);
        let mut p: usize = 0;
        while p < ranking.len() && ranking[p].1 >= score
            invariant
                p <= ranking.len(),
                forall|j: int| 0 <= j < p ==> (#[trigger] ranking@[j]).1 >= score,
            decreases ranking.len() - p,
        {
            p = p + 1;
        }
        let ghost before = ranking@;
        ranking.insert(p, (k, score));
        proof {
            before.insert_ensures(p as int, (k, score));
            let after = ranking@;
            assert forall|i: int| 0 <= i < k + 1 implies (#[trigger] after[i]).0 < k + 1
                && after[i].1 == scores[after[i].0 as int] by {
                if i < p {
                    assert(after[i] == before[i]);
                } else if i > p {
                    assert(after[i] == before[i - 1]);
                }
            }
            assert forall|i: int, j: int| 0 <= i < j < k + 1 implies ranks_before(
                scores,
                (#[trigger] after[i]).0 as int,
                (#[trigger] after[j]).0 as int,
            ) by {
                if j < p {
                    assert(after[i] == before[i] && after[j] == before[j]);
                } else if j == p {
                    assert(after[i] == before[i]);
                    assert(before[i].1 >= score);
                } else if i < p {
                    assert(after[i] == before[i] && after[j] == before[j - 1]);
                } else if i == p {
                    assert(after[j] == before[j - 1]);
                    assert(before[p as int].1 < score);
                    if j - 1 > p {
                        assert(ranks_before(
                            scores,
                            before[p as int].0 as int,
                            before[j - 1].0 as int,
                        ));
                    }
                } else {
                    assert(after[i] == before[i - 1] && after[j] == before[j - 1]);
                }
            }
        }
        k = k + 1;
    }
    ranking
}

/// Whether the candidate at `rank` with `score` is suggested: the best
/// candidate always, one of the next five if its score reaches the lower
/// floor, a later one if its score reaches the higher floor.
pub open spec fn suggested(rank: int, score: u64) -> bool {
    if rank > LAST_EARLY_RANK {
        score >= LATE_SIMILARITY_FLOOR
    } else if rank > 0 {
        score >= SIMILARITY_FLOOR
    } else {
        true
    }
}

/// The positions of the candidates that are suggested among the first `n` of a
/// ranking, in the order of the ranking.
pub open spec fn suggested_positions(ranking: Seq<(usize, u64)>, n: int) -> Seq<int>
    decreases n,
{
    if n <= 0 || n > ranking.len() {
        Seq::empty()
    } else if suggested(n - 1, ranking[n - 1].1) {
        suggested_positions(ranking, n - 1).push(ranking[n - 1].0 as int)
    } else {
        suggested_positions(ranking, n - 1)
    }
}

/// The best candidate of a ranking is always suggested.
pub proof fn lemma_best_is_suggested(ranking: Seq<(usize, u64)>, n: int)
    requires
        1 <= n <= ranking.len(),
    ensures
        suggested_positions(ranking, n).len() >= 1,
        suggested_positions(ranking, n)[0] == ranking[0].0,
    decreases n,
{
    if n > 1 {
        lemma_best_is_suggested(ranking, n - 1);
    } else {
        assert(suggested_positions(ranking, 0).len() == 0);
    }
}

/// The candidates of a ranking that are suggested, as positions among the
/// options.
pub fn suggested_candidates(ranking: &Vec<(usize, u64)>) -> (r: Vec<usize>)
    ensures
        r@.len() == suggested_positions(ranking@, ranking@.len() as int).len(),
        forall|i: int|
            0 <= i < r@.len() ==> r@[i] as int == suggested_positions(
                ranking@,
                ranking@.len() as int,
            )[i],
        ranking@.len() > 0 ==> r@.len() > 0 && r@[0] == ranking@[0].0,
{
    let mut out: Vec<usize> = Vec::new();
    let mut i: usize = 0;
    while i < ranking.len()
        invariant
            i <= ranking.len(),
            out@.len() == suggested_positions(ranking@, i as int).len(),
            forall|j: int|
                0 <= j < out@.len() ==> out@[j] as int == suggested_positions(ranking@, i as int)[j],
        decreases ranking.len() - i,
    {
        let score = ranking[i].1;
        let keep = if i > LAST_EARLY_RANK {
            score >= LATE_SIMILARITY_FLOOR
        } else if i > 0 {
            score >= SIMILARITY_FLOOR
        } else {
            true
        };
        if keep {
            out.push(ranking[i].0);
        }
        i = i + 1;
    }
    proof {
        if ranking@.len() > 0 {
            lemma_best_is_suggested(ranking@, ranking@.len() as int);
        }
    }
    out
}

/// `suggestions` are the readable forms of the definitions that are suggested
/// for a line with the comparison string `comparator`: there is a ranking of
/// the definitions by the similarity of their comparison strings to
/// `comparator`, and the suggestions are the definitions that are suggested in
/// it, in its order.
pub open spec fn suggests(
    definitions: Seq<Seq<Segment>>,
    comparator: Seq<char>,
    suggestions: Seq<Seq<char>>,
) -> bool {
    exists|ranking: Seq<(usize, u64)>|
        {
            &&& #[trigger] is_ranking(
                scores_of(comparator, skeletons(definitions)),
                ranking,
                definitions.len() as int,
            )
            &&& suggestions.len() == suggested_positions(ranking, ranking.len() as int).len()
            &&& forall|i: int|
                0 <= i < suggestions.len() ==> suggestions[i] == pattern_texts(
                    definitions,
                )[suggested_positions(ranking, ranking.len() as int)[i]]
        }
}

/// Every suggested position is the position of a candidate.
pub proof fn lemma_suggested_in_range(scores: Seq<u64>, ranking: Seq<(usize, u64)>, n: int)
    requires
        is_ranking(scores, ranking, ranking.len() as int),
        0 <= n <= ranking.len(),
    ensures
        forall|i: int|
            0 <= i < suggested_positions(ranking, n).len() ==> 0 <= #[trigger] suggested_positions(
                ranking,
                n,
            )[i] < ranking.len(),
    decreases n,
{
    if n > 0 {
        lemma_suggested_in_range(scores, ranking, n - 1);
        assert(ranking[n - 1].0 < ranking.len());
        let shorter = suggested_positions(ranking, n - 1);
        let longer = suggested_positions(ranking, n);
        assert forall|i: int| 0 <= i < longer.len() implies 0 <= #[trigger] longer[i]
            < ranking.len() by {
            if i < shorter.len() {
                assert(longer[i] == shorter[i]);
            }
        }
    }
}

/// The definitions that come closest to a line for which none of them stands:
/// their readable forms, the closest first. The best candidate is always among
/// them, so there is a suggestion whenever there is a definition.
pub fn closest_definitions<T>(invocation: &HumaneSegments, registry: &Registry<T>) -> (r: Vec<
    String,
>)
    ensures
        suggests(registry.definitions(), skeleton(invocation@), texts(r@)),
        registry.definitions().len() > 0 ==> r@.len() > 0,
{
    let comparator = invocation.get_comparison_string();
    let comparisons = registry.comparison_strings();
    let ranking = closest_strings(&comparator, &comparisons);
    let chosen = suggested_candidates(&ranking);
    let ghost positions = suggested_positions(ranking@, ranking@.len() as int);
    proof {
        lemma_suggested_in_range(
            scores_of(comparator@, texts(comparisons@)),
            ranking@,
            ranking@.len() as int,
        );
    }
    let mut out: Vec<String> = Vec::new();
    let mut i: usize = 0;
    while i < chosen.len()
        invariant
            i <= chosen.len(),
            out@.len() == i,
            chosen@.len() == positions.len(),
            ranking@.len() == registry.definitions().len(),
            forall|j: int| 0 <= j < chosen@.len() ==> chosen@[j] as int == positions[j],
            forall|j: int| 0 <= j < positions.len() ==> 0 <= #[trigger] positions[j] < ranking@.len(),
            forall|j: int|
                0 <= j < i ==> out@[j]@ == pattern_texts(registry.definitions())[positions[j]],
        decreases chosen.len() - i,
    {
        assert(0 <= positions[i as int] < ranking@.len());
        out.push(registry.definition(chosen[i]).get_as_string());
        i = i + 1;
    }
    proof {
        assert(is_ranking(
            scores_of(skeleton(invocation@), skeletons(registry.definitions())),
            ranking@,
            registry.definitions().len() as int,
        ));
        assert forall|j: int| 0 <= j < texts(out@).len() implies texts(out@)[j] == pattern_texts(
            registry.definitions(),
        )[positions[j]] by {}
    }
    out
}

} // verus!

verus! {

/// A ranking holds every option: each position among the options stands at
/// some rank.
pub proof fn law_ranking_holds_every_option(
    scores: Seq<u64>,
    ranking: Seq<(usize, u64)>,
    option: int,
)
    requires
        is_ranking(scores, ranking, ranking.len() as int),
        0 <= option < ranking.len(),
    ensures
        exists|rank: int| 0 <= rank < ranking.len() && (#[trigger] ranking[rank]).0 == option,
{
    let n = ranking.len() as int;
    if !exists|rank: int| 0 <= rank < n && (#[trigger] ranking[rank]).0 == option {
        // Without the option, the ranks hold as many positions as there are
        // options, each once, among one position fewer.
        let squeezed = Seq::new(
            ranking.len(),
            |i: int|
                if ranking[i].0 > option {
                    (ranking[i].0 - 1) as usize
                } else {
                    ranking[i].0
                },
        );
        assert forall|i: int| 0 <= i < squeezed.len() implies (#[trigger] squeezed[i]) < n - 1 by {
            assert(ranking[i].0 < n);
            assert(ranking[i].0 != option);
        }
        assert forall|i: int, j: int| 0 <= i < j < squeezed.len() implies #[trigger] squeezed[i]
            != #[trigger] squeezed[j] by {
            assert(ranks_before(scores, ranking[i].0 as int, ranking[j].0 as int));
            assert(ranking[i].0 != ranking[j].0);
            assert(ranking[i].0 != option);
            assert(ranking[j].0 != option);
        }
        crate::runner::lemma_stack_bound(squeezed, n - 1);
    }
}

} // verus!
