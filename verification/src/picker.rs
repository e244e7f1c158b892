//! Pickers: arbitration policies that convert several scored candidate
//! moves into one chosen move (or none).

use vstd::prelude::*;

use crate::randomness::rand_below;
use crate::rules::MoveType;

verus! {

/// Sum of the candidate scores from position `i` on.
pub open spec fn scores_total_from(s: Seq<(MoveType, u64)>, i: int) -> int
    decreases s.len() - i,
{
    if i < 0 || i >= s.len() {
        0
    } else {
        s[i].1 + scores_total_from(s, i + 1)
    }
}

proof fn lemma_scores_total_nonneg(s: Seq<(MoveType, u64)>, i: int)
    ensures
        scores_total_from(s, i) >= 0,
    decreases s.len() - i,
{
    if 0 <= i && i < s.len() {
        lemma_scores_total_nonneg(s, i + 1);
    }
}

proof fn lemma_scores_total_zero(s: Seq<(MoveType, u64)>, i: int)
    requires
        0 <= i,
        scores_total_from(s, i) == 0,
    ensures
        forall|j: int| i <= j < s.len() ==> (#[trigger] s[j]).1 == 0,
    decreases s.len() - i,
{
    if i < s.len() {
        lemma_scores_total_nonneg(s, i + 1);
        lemma_scores_total_zero(s, i + 1);
    }
}

/// The fixed, documented order in which scored candidates are handed to a
/// picker; ties in a picker go to the earlier entry, so this order is part
/// of the decision policy, not incidental.
pub fn candidates_in_order(take_single: u64, sell: u64, camels: u64, exchange: u64) -> (r: Vec<
    (MoveType, u64),
>)
    ensures
        r@ == seq![
            (MoveType::TakeSingleGood, take_single),
            (MoveType::SellGoods, sell),
            (MoveType::TakeAllCamels, camels),
            (MoveType::ExchangeForGoodsFromMarket, exchange),
        ],
{
    vec![
        (MoveType::TakeSingleGood, take_single),
        (MoveType::SellGoods, sell),
        (MoveType::TakeAllCamels, camels),
        (MoveType::ExchangeForGoodsFromMarket, exchange),
    ]
}

/// Keeps the first candidate whose score is the maximum seen and strictly
/// above a configured threshold; evaluation order is the order of the
/// candidate list, so ties go to the earlier candidate.
#[derive(Clone, Copy, Debug)]
pub struct HighestScorePicker {
    pub threshold: u64,
}

impl HighestScorePicker {
    pub fn new(threshold: u64) -> (r: HighestScorePicker)
        ensures
            r.threshold == threshold,
    {
        HighestScorePicker { threshold }
    }

    /// Picks the first candidate holding the maximum score, provided that
    /// score exceeds the threshold; otherwise no move is chosen.
    pub fn pick(&self, candidates: &Vec<(MoveType, u64)>) -> (r: Option<MoveType>)
        ensures
            (r is None) <==> (forall|i: int|
                0 <= i < candidates@.len() ==> (#[trigger] candidates@[i]).1 <= self.threshold),
            match r {
                None => true,
                Some(mt) => exists|i: int|
                    #![trigger candidates@[i]]
                    0 <= i < candidates@.len() && candidates@[i].0 == mt && candidates@[i].1
                        > self.threshold && (forall|j: int|
                        0 <= j < candidates@.len() ==> (#[trigger] candidates@[j]).1
                            <= candidates@[i].1) && (forall|j: int|
                        0 <= j < i ==> (#[trigger] candidates@[j]).1 < candidates@[i].1),
            },
    {
        let mut best_i: Option<usize> = None;
        let mut best: u64 = 0;
        let mut i: usize = 0;
        while i < candidates.len()
            invariant
                i <= candidates@.len(),
                match best_i {
                    None => forall|j: int|
                        0 <= j < i ==> (#[trigger] candidates@[j]).1 <= self.threshold,
                    Some(b) => {
                        &&& b < i
                        &&& best == candidates@[b as int].1
                        &&& best > self.threshold
                        &&& (forall|j: int| 0 <= j < i ==> (#[trigger] candidates@[j]).1 <= best)
                        &&& (forall|j: int| 0 <= j < b ==> (#[trigger] candidates@[j]).1 < best)
                    },
                },
            decreases candidates@.len() - i,
        {
            let (_, score) = candidates[i];
            let take_it = match best_i {
                None => score > self.threshold,
                Some(_) => score > best && score > self.threshold,
            };
            if take_it {
                best_i = Some(i);
                best = score;
            }
            i = i + 1;
        }
        match best_i {
            Some(b) => Some(candidates[b].0),
            None => None,
        }
    }
}

/// Draws one candidate with probability proportional to its score; when
/// every candidate scores zero (or there are none), no move is chosen —
/// an explicit outcome the caller must handle, not a silent default.
#[derive(Clone, Copy, Debug, Default)]
pub struct WeightedPicker;

impl WeightedPicker {
    /// Picks a candidate with nonzero score at random, weighted by score.
    pub fn pick(&self, candidates: &Vec<(MoveType, u64)>) -> (r: Option<MoveType>)
        requires
            scores_total_from(candidates@, 0) <= u64::MAX,
        ensures
            (r is None) <==> (forall|i: int|
                0 <= i < candidates@.len() ==> (#[trigger] candidates@[i]).1 == 0),
            match r {
                None => true,
                Some(mt) => exists|i: int|
                    #![trigger candidates@[i]]
                    0 <= i < candidates@.len() && candidates@[i].0 == mt && candidates@[i].1 > 0,
            },
    {
        let mut total: u64 = 0;
        let mut i: usize = 0;
        while i < candidates.len()
            invariant
                i <= candidates@.len(),
                scores_total_from(candidates@, 0) <= u64::MAX,
                scores_total_from(candidates@, 0) == total + scores_total_from(
                    candidates@,
                    i as int,
                ),
            decreases candidates@.len() - i,
        {
            proof {
                lemma_scores_total_nonneg(candidates@, i as int + 1);
            }
            total = total + candidates[i].1;
            i = i + 1;
        }
        if total == 0 {
            proof {
                lemma_scores_total_zero(candidates@, 0);
            }
            return None;
        }
        let x = rand_below(total);
        let mut acc: u64 = 0;
        let mut j: usize = 0;
        while j < candidates.len()
            invariant
                j <= candidates@.len(),
                x < total,
                acc <= x,
                scores_total_from(candidates@, 0) == total,
                scores_total_from(candidates@, 0) == acc + scores_total_from(
                    candidates@,
                    j as int,
                ),
            decreases candidates@.len() - j,
        {
            proof {
                lemma_scores_total_nonneg(candidates@, j as int + 1);
            }
            let (mt, score) = candidates[j];
            if x < acc + score {
                return Some(mt);
            }
            acc = acc + score;
            j = j + 1;
        }
        proof {
            assert(acc == total);
        }
        unreached()
    }
}

} // verus!
