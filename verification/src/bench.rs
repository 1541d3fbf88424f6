use vstd::prelude::*;

verus! {

/// Number of times to ping the remote server.
pub const PING_TIMES: usize = 5;

/// Number of bytes to ask the remote server for in one latency probe.
pub const LEN_BENCH_CHUNK: u64 = 64;

/// Sum of a sequence of probe times.
pub open spec fn spec_sum(samples: Seq<u32>) -> int
    decreases samples.len(),
{
    if samples.len() == 0 {
        0
    } else {
        spec_sum(samples.drop_last()) + samples.last()
    }
}

/// The score of one mirror: zero (the "unreachable" sentinel) as soon as one
/// probe failed, else the arithmetic mean of the probe times.
pub open spec fn spec_score(samples: Seq<u32>) -> u32 {
    if exists|i: int| 0 <= i < samples.len() && samples[i] == 0 {
        0u32
    } else {
        (spec_sum(samples) / (samples.len() as int)) as u32
    }
}

/// Score one mirror from its probe times. A failed probe is recorded by the
/// caller as a zero sample, and a single one forces the unreachable score;
/// otherwise the score is the mean of the five samples.
pub fn score_probes(samples: &Vec<u32>) -> (score: u32)
    requires
        samples@.len() == PING_TIMES,
    ensures
        score == spec_score(samples@),
        (exists|i: int| 0 <= i < samples@.len() && samples@[i] == 0) ==> score == 0,
{
    let mut sum: u64 = 0;
    let mut any_zero = false;
    let mut k: usize = 0;
    while k < samples.len()
        invariant
            samples@.len() == PING_TIMES,
            0 <= k <= samples@.len(),
            sum == spec_sum(samples@.take(k as int)),
            sum <= k as int * 0xffff_ffff,
            any_zero <==> (exists|i: int| 0 <= i < k && samples@[i] == 0),
        decreases samples@.len() - k,
    {
        let sample = samples[k];
        if sample == 0 {
            any_zero = true;
        }
        sum = sum + sample as u64;
        proof {
            assert(samples@.take(k as int + 1).drop_last() =~= samples@.take(k as int));
            assert(samples@.take(k as int + 1).last() == samples@[k as int]);
        }
        k = k + 1;
    }
    proof {
        assert(samples@.take(samples@.len() as int) =~= samples@);
    }
    if any_zero {
        0
    } else {
        (sum / PING_TIMES as u64) as u32
    }
}

/// Candidate `a` comes before candidate `b`: its score is lower, or equal with
/// `a` the earlier candidate.
pub open spec fn lex_before(scores: Seq<u32>, a: int, b: int) -> bool {
    scores[a] < scores[b] || (scores[a] == scores[b] && a < b)
}

/// `order` ranks the reachable mirrors: it lists, without repetition, exactly
/// the candidates with a nonzero score, sorted by ascending score and, between
/// equal scores, by candidate position.
pub open spec fn is_ranked(scores: Seq<u32>, order: Seq<usize>) -> bool {
    &&& forall|m: int|
        0 <= m < order.len() ==> (#[trigger] order[m]) < scores.len() && scores[order[m] as int]
            != 0
    &&& forall|a: int, b: int|
        0 <= a < b < order.len() ==> #[trigger] lex_before(
            scores,
            order[a] as int,
            order[b] as int,
        )
    &&& forall|j: int|
        0 <= j < scores.len() && (#[trigger] scores[j]) != 0 ==> exists|m: int|
            0 <= m < order.len() && order[m] == j
}

/// Rank mirror candidates by their scores: drop every candidate scored
/// unreachable and sort the rest by ascending score, candidates with equal
/// scores keeping their relative order.
pub fn rank_order(scores: &Vec<u32>) -> (order: Vec<usize>)
    ensures
        is_ranked(scores@, order@),
{
    let mut order: Vec<usize> = Vec::new();
    let mut j: usize = 0;
    while j < scores.len()
        invariant
            0 <= j <= scores@.len(),
            forall|m: int|
                0 <= m < order@.len() ==> (#[trigger] order@[m]) < j && scores@[order@[m] as int]
                    != 0,
            forall|a: int, b: int|
                0 <= a < b < order@.len() ==> #[trigger] lex_before(
                    scores@,
                    order@[a] as int,
                    order@[b] as int,
                ),
            forall|i: int|
                0 <= i < j && (#[trigger] scores@[i]) != 0 ==> exists|m: int|
                    0 <= m < order@.len() && order@[m] == i,
        decreases scores@.len() - j,
    {
        let score = scores[j];
        if score != 0 {
            let mut pos: usize = 0;
            while pos < order.len() && scores[order[pos]] <= score
                invariant
                    0 <= pos <= order@.len(),
                    j < scores@.len(),
                    score == scores@[j as int],
                    forall|m: int|
                        0 <= m < order@.len() ==> (#[trigger] order@[m]) < j && scores@[order@[m]
                            as int] != 0,
                    forall|m: int|
                        0 <= m < pos ==> scores@[(#[trigger] order@[m]) as int] <= score,
                decreases order@.len() - pos,
            {
                pos = pos + 1;
            }
            let ghost before = order@;
            order.insert(pos, j);
            proof {
                assert forall|a: int, b: int|
                    0 <= a < b < order@.len() implies #[trigger] lex_before(
                    scores@,
                    order@[a] as int,
                    order@[b] as int,
                ) by {
                    if b < pos {
                        assert(lex_before(scores@, before[a] as int, before[b] as int));
                    } else if a < pos && b == pos {
                        assert(scores@[order@[a] as int] <= score);
                        assert(order@[a] < j);
                    } else if a < pos && b > pos {
                        assert(lex_before(scores@, before[a] as int, before[b - 1] as int));
                    } else if a == pos {
                        assert(order@[b] == before[b - 1]);
                        if b - 1 > pos {
                            assert(lex_before(scores@, before[pos as int] as int, before[b
                                - 1] as int));
                        }
                        assert(scores@[before[pos as int] as int] > score);
                    } else {
                        assert(lex_before(scores@, before[a - 1] as int, before[b - 1] as int));
                    }
                }
                assert forall|i: int|
                    0 <= i < j + 1 && (#[trigger] scores@[i]) != 0 implies exists|m: int|
                    0 <= m < order@.len() && order@[m] == i by {
                    if i == j {
                        assert(order@[pos as int] == j);
                    } else {
                        let m = choose|m: int| 0 <= m < before.len() && before[m] == i;
                        if m < pos {
                            assert(order@[m] == i);
                        } else {
                            assert(order@[m + 1] == i);
                        }
                    }
                }
            }
        }
        j = j + 1;
    }
    order
}

/// The scores of a list of scored mirror candidates.
pub open spec fn spec_scores(scored: Seq<(String, u32)>) -> Seq<u32> {
    scored.map_values(|p: (String, u32)| p.1)
}

/// Rank scored mirror candidates, fastest first: candidates scored unreachable
/// are dropped, the others are sorted by ascending score, and equal scores
/// keep the candidates' relative order.
pub fn rank_mirrors(scored: &Vec<(String, u32)>) -> (ranked: Vec<String>)
    ensures
        exists|order: Seq<usize>|
            #[trigger] is_ranked(spec_scores(scored@), order) && ranked@.len() == order.len()
                && (forall|m: int|
                0 <= m < order.len() ==> (#[trigger] ranked@[m])@ == scored@[order[m] as int].0@),
{
    let mut scores: Vec<u32> = Vec::new();
    let mut j: usize = 0;
    while j < scored.len()
        invariant
            0 <= j <= scored@.len(),
            scores@.len() == j,
            forall|i: int| 0 <= i < j ==> #[trigger] scores@[i] == scored@[i].1,
        decreases scored@.len() - j,
    {
        scores.push(scored[j].1);
        j = j + 1;
    }
    proof {
        assert(scores@ =~= spec_scores(scored@));
    }
    let order = rank_order(&scores);
    let mut ranked: Vec<String> = Vec::new();
    let mut m: usize = 0;
    while m < order.len()
        invariant
            scores@ == spec_scores(scored@),
            scores@.len() == scored@.len(),
            is_ranked(scores@, order@),
            0 <= m <= order@.len(),
            ranked@.len() == m,
            forall|i: int|
                0 <= i < m ==> (#[trigger] ranked@[i])@ == scored@[order@[i] as int].0@,
        decreases order@.len() - m,
    {
        let idx = order[m];
        ranked.push(scored[idx].0.clone());
        m = m + 1;
    }
    proof {
        let witness = order@;
        assert(is_ranked(spec_scores(scored@), witness) && ranked@.len() == witness.len() && (
        forall|m: int|
            0 <= m < witness.len() ==> (#[trigger] ranked@[m])@ == scored@[witness[m]
                as int].0@));
    }
    ranked
}

/// Ranked mirrors are ordered by measured latency: an earlier mirror never has
/// a larger score, and between equal scores the earlier candidate comes first.
pub proof fn lemma_rank_latency_order(scores: Seq<u32>, order: Seq<usize>, a: int, b: int)
    requires
        is_ranked(scores, order),
        0 <= a < b < order.len(),
    ensures
        scores[order[a] as int] <= scores[order[b] as int],
        scores[order[a] as int] == scores[order[b] as int] ==> order[a] < order[b],
{
    assert(lex_before(scores, order[a] as int, order[b] as int));
}

/// A mirror with any single failed probe is scored unreachable and therefore
/// never appears in the ranked output, however fast its other probes were.
pub proof fn lemma_failed_probe_excluded(
    samples: Seq<u32>,
    scores: Seq<u32>,
    order: Seq<usize>,
    k: int,
)
    requires
        is_ranked(scores, order),
        0 <= k < scores.len(),
        scores[k] == spec_score(samples),
        exists|p: int| 0 <= p < samples.len() && samples[p] == 0,
    ensures
        forall|m: int| 0 <= m < order.len() ==> (#[trigger] order[m]) as int != k,
{
    assert(spec_score(samples) == 0);
    assert forall|m: int| 0 <= m < order.len() implies (#[trigger] order[m]) as int != k by {
        assert(scores[order[m] as int] != 0);
    }
}

} // verus!
