//! Reward token banks: one descending-value stack per good type, plus
//! bonus stacks keyed by sale-size tier.
//!
//! Stacks are popped from the top (the vector's end), which by predealing
//! always yields the best remaining reward. A stack, once empty, is never
//! replenished.

use vstd::prelude::*;
use vstd::seq_lib::*;

use crate::card::GoodType;
use crate::randomness::shuffle;

verus! {

/// Sale-size tiers that grant a bonus token: 3, 4, or 5-or-more cards sold
/// in one move.
#[derive(Clone, Copy, Debug, PartialEq, Eq, Structural)]
pub enum BonusType {
    Three,
    Four,
    Five,
}

/// Position of a good type's stack inside the bank.
pub open spec fn good_index(g: GoodType) -> int {
    match g {
        GoodType::Diamond => 0,
        GoodType::Gold => 1,
        GoodType::Silver => 2,
        GoodType::Cloth => 3,
        GoodType::Spice => 4,
        GoodType::Leather => 5,
    }
}

/// Position of a bonus tier's stack inside the bank.
pub open spec fn bonus_index(b: BonusType) -> int {
    match b {
        BonusType::Three => 0,
        BonusType::Four => 1,
        BonusType::Five => 2,
    }
}

pub proof fn lemma_good_index_injective(a: GoodType, b: GoodType)
    ensures
        good_index(a) == good_index(b) ==> a == b,
{
}

pub proof fn lemma_bonus_index_injective(a: BonusType, b: BonusType)
    ensures
        bonus_index(a) == bonus_index(b) ==> a == b,
{
}

pub fn good_slot(g: GoodType) -> (r: usize)
    ensures
        r == good_index(g),
{
    match g {
        GoodType::Diamond => 0,
        GoodType::Gold => 1,
        GoodType::Silver => 2,
        GoodType::Cloth => 3,
        GoodType::Spice => 4,
        GoodType::Leather => 5,
    }
}

/// The good type whose stack sits at the given position.
pub fn good_of_slot(i: usize) -> (r: GoodType)
    requires
        i < 6,
    ensures
        good_index(r) == i,
{
    if i == 0 {
        GoodType::Diamond
    } else if i == 1 {
        GoodType::Gold
    } else if i == 2 {
        GoodType::Silver
    } else if i == 3 {
        GoodType::Cloth
    } else if i == 4 {
        GoodType::Spice
    } else {
        GoodType::Leather
    }
}

pub fn bonus_slot(b: BonusType) -> (r: usize)
    ensures
        r == bonus_index(b),
{
    match b {
        BonusType::Three => 0,
        BonusType::Four => 1,
        BonusType::Five => 2,
    }
}

/// The bonus tier a sale of `n` cards falls under, if any.
pub open spec fn spec_bonus_for_sale_size(n: int) -> Option<BonusType> {
    if n == 3 {
        Some(BonusType::Three)
    } else if n == 4 {
        Some(BonusType::Four)
    } else if n >= 5 {
        Some(BonusType::Five)
    } else {
        None
    }
}

pub fn bonus_for_sale_size(n: usize) -> (r: Option<BonusType>)
    ensures
        r == spec_bonus_for_sale_size(n as int),
{
    if n == 3 {
        Some(BonusType::Three)
    } else if n == 4 {
        Some(BonusType::Four)
    } else if n >= 5 {
        Some(BonusType::Five)
    } else {
        None
    }
}

/// Sum of the values of `s` from position `i` on.
pub open spec fn sum_from(s: Seq<u64>, i: int) -> int
    decreases s.len() - i,
{
    if i < 0 || i >= s.len() {
        0
    } else {
        s[i] + sum_from(s, i + 1)
    }
}

/// Sum of all values of `s`.
pub open spec fn seq_sum(s: Seq<u64>) -> int {
    sum_from(s, 0)
}

pub proof fn lemma_sum_from_nonneg(s: Seq<u64>, i: int)
    ensures
        sum_from(s, i) >= 0,
    decreases s.len() - i,
{
    if 0 <= i && i < s.len() {
        lemma_sum_from_nonneg(s, i + 1);
    }
}

/// Sum of the sums of the stacks of `v` from position `i` on.
pub open spec fn stacks_sum_from(v: Seq<Vec<u64>>, i: int) -> int
    decreases v.len() - i,
{
    if i < 0 || i >= v.len() {
        0
    } else {
        seq_sum(v[i]@) + stacks_sum_from(v, i + 1)
    }
}

pub proof fn lemma_stacks_sum_from_nonneg(v: Seq<Vec<u64>>, i: int)
    ensures
        stacks_sum_from(v, i) >= 0,
    decreases v.len() - i,
{
    if 0 <= i && i < v.len() {
        lemma_sum_from_nonneg(v[i]@, 0);
        lemma_stacks_sum_from_nonneg(v, i + 1);
    }
}

/// Number of empty stacks of `v` from position `i` on.
pub open spec fn count_empty_from(v: Seq<Vec<u64>>, i: int) -> int
    decreases v.len() - i,
{
    if i < 0 || i >= v.len() {
        0
    } else {
        (if v[i]@.len() == 0 {
            1int
        } else {
            0int
        }) + count_empty_from(v, i + 1)
    }
}

proof fn lemma_all_stacks_empty(v: Seq<Vec<u64>>, i: int)
    requires
        forall|k: int| 0 <= k < v.len() ==> (#[trigger] v[k])@.len() == 0,
        0 <= i <= v.len(),
    ensures
        stacks_sum_from(v, i) == 0,
        count_empty_from(v, i) == v.len() - i,
    decreases v.len() - i,
{
    if i < v.len() {
        lemma_all_stacks_empty(v, i + 1);
    }
}

/// A bank of token stacks: six good stacks and three bonus stacks.
#[derive(Clone, Debug)]
pub struct Tokens {
    pub goods: Vec<Vec<u64>>,
    pub bonus: Vec<Vec<u64>>,
}

impl Tokens {
    /// One stack per good type and one per bonus tier.
    pub open spec fn wf(self) -> bool {
        self.goods@.len() == 6 && self.bonus@.len() == 3
    }

    /// The stack of reward values for the given good type, top last.
    pub open spec fn goods_at(self, g: GoodType) -> Seq<u64> {
        self.goods@[good_index(g)]@
    }

    /// The stack of bonus values for the given sale-size tier, top last.
    pub open spec fn bonus_at(self, b: BonusType) -> Seq<u64> {
        self.bonus@[bonus_index(b)]@
    }

    /// Total value of every token still in the bank.
    pub open spec fn spec_total(self) -> int {
        stacks_sum_from(self.goods@, 0) + stacks_sum_from(self.bonus@, 0)
    }

    /// Number of good-type stacks that have been exhausted.
    pub open spec fn spec_num_empty_goods_stacks(self) -> int {
        count_empty_from(self.goods@, 0)
    }

    /// The predealt bank for a fresh game: good stacks in ascending value
    /// order (so the top is the best remaining reward) and bonus stacks
    /// shuffled.
    pub fn create_game_tokens() -> (r: Tokens)
        ensures
            r.wf(),
            r.goods_at(GoodType::Diamond) == seq![5u64, 5u64, 5u64, 7u64, 7u64],
            r.goods_at(GoodType::Gold) == seq![5u64, 5u64, 5u64, 6u64, 6u64],
            r.goods_at(GoodType::Silver) == seq![5u64, 5u64, 5u64, 5u64, 5u64],
            r.goods_at(GoodType::Cloth) == seq![1u64, 1u64, 2u64, 2u64, 3u64, 3u64, 5u64],
            r.goods_at(GoodType::Spice) == seq![1u64, 1u64, 2u64, 2u64, 3u64, 3u64, 5u64],
            r.goods_at(GoodType::Leather) == seq![
                1u64,
                1u64,
                1u64,
                1u64,
                1u64,
                1u64,
                2u64,
                3u64,
                4u64,
            ],
            r.bonus_at(BonusType::Three).to_multiset() == seq![
                3u64,
                3u64,
                2u64,
                2u64,
                2u64,
                1u64,
                1u64,
            ].to_multiset(),
            r.bonus_at(BonusType::Four).to_multiset() == seq![
                6u64,
                6u64,
                5u64,
                5u64,
                4u64,
                4u64,
            ].to_multiset(),
            r.bonus_at(BonusType::Five).to_multiset() == seq![
                10u64,
                10u64,
                9u64,
                8u64,
                8u64,
            ].to_multiset(),
            r.bonus_at(BonusType::Three).len() == 7,
            r.bonus_at(BonusType::Four).len() == 6,
            r.bonus_at(BonusType::Five).len() == 5,
    {
        let goods: Vec<Vec<u64>> = vec![
            vec![5u64, 5, 5, 7, 7],
            vec![5u64, 5, 5, 6, 6],
            vec![5u64, 5, 5, 5, 5],
            vec![1u64, 1, 2, 2, 3, 3, 5],
            vec![1u64, 1, 2, 2, 3, 3, 5],
            vec![1u64, 1, 1, 1, 1, 1, 2, 3, 4],
        ];

        let mut three_bonuses: Vec<u64> = vec![3u64, 3, 2, 2, 2, 1, 1];
        shuffle(&mut three_bonuses);

        let mut four_bonuses: Vec<u64> = vec![6u64, 6, 5, 5, 4, 4];
        shuffle(&mut four_bonuses);

        let mut five_bonuses: Vec<u64> = vec![10u64, 10, 9, 8, 8];
        shuffle(&mut five_bonuses);

        let bonus: Vec<Vec<u64>> = vec![three_bonuses, four_bonuses, five_bonuses];

        Tokens { goods, bonus }
    }

    /// An empty bank, used for a player's initially empty token holdings.
    pub fn create_empty() -> (r: Tokens)
        ensures
            r.wf(),
            forall|g: GoodType| (#[trigger] r.goods_at(g)).len() == 0,
            forall|b: BonusType| (#[trigger] r.bonus_at(b)).len() == 0,
            r.spec_total() == 0,
            r.spec_num_empty_goods_stacks() == 6,
    {
        let goods: Vec<Vec<u64>> = vec![
            Vec::new(),
            Vec::new(),
            Vec::new(),
            Vec::new(),
            Vec::new(),
            Vec::new(),
        ];
        let bonus: Vec<Vec<u64>> = vec![Vec::new(), Vec::new(), Vec::new()];
        let r = Tokens { goods, bonus };
        proof {
            lemma_all_stacks_empty(r.goods@, 0);
            lemma_all_stacks_empty(r.bonus@, 0);
        }
        r
    }

    /// Pops the top (best remaining) token of the given good type, or
    /// nothing if that stack is exhausted.
    pub fn pop_good_token(&mut self, g: GoodType) -> (r: Option<u64>)
        requires
            old(self).wf(),
        ensures
            final(self).wf(),
            final(self).bonus == old(self).bonus,
            old(self).goods_at(g).len() == 0 ==> r is None && final(self).goods_at(g) == old(self).goods_at(g),
            old(self).goods_at(g).len() > 0 ==> r == Some(old(self).goods_at(g).last()) && final(self).goods_at(g) == old(self).goods_at(g).drop_last(),
            forall|h: GoodType|
                h != g ==> (#[trigger] final(self).goods_at(h)) == old(self).goods_at(h),
    {
        let gi = good_slot(g);
        let r = self.goods[gi].pop();
        proof {
            assert forall|h: GoodType| h != g implies (#[trigger] self.goods_at(h)) == old(self).goods_at(h) by {
                lemma_good_index_injective(h, g);
            }
        }
        r
    }

    /// Pops the top bonus token of the given tier, or nothing if that
    /// stack is exhausted.
    pub fn pop_bonus_token(&mut self, b: BonusType) -> (r: Option<u64>)
        requires
            old(self).wf(),
        ensures
            final(self).wf(),
            final(self).goods == old(self).goods,
            old(self).bonus_at(b).len() == 0 ==> r is None && final(self).bonus_at(b) == old(self).bonus_at(b),
            old(self).bonus_at(b).len() > 0 ==> r == Some(old(self).bonus_at(b).last()) && final(self).bonus_at(b) == old(self).bonus_at(b).drop_last(),
            forall|c: BonusType|
                c != b ==> (#[trigger] final(self).bonus_at(c)) == old(self).bonus_at(c),
    {
        let bi = bonus_slot(b);
        let r = self.bonus[bi].pop();
        proof {
            assert forall|c: BonusType| c != b implies (#[trigger] self.bonus_at(c)) == old(self).bonus_at(c) by {
                lemma_bonus_index_injective(c, b);
            }
        }
        r
    }

    /// Adds a won token of the given good type to these holdings.
    pub fn push_good_token(&mut self, g: GoodType, v: u64)
        requires
            old(self).wf(),
        ensures
            final(self).wf(),
            final(self).bonus == old(self).bonus,
            final(self).goods_at(g) == old(self).goods_at(g).push(v),
            forall|h: GoodType|
                h != g ==> (#[trigger] final(self).goods_at(h)) == old(self).goods_at(h),
    {
        let gi = good_slot(g);
        self.goods[gi].push(v);
        proof {
            assert forall|h: GoodType| h != g implies (#[trigger] self.goods_at(h)) == old(self).goods_at(h) by {
                lemma_good_index_injective(h, g);
            }
        }
    }

    /// Adds a won bonus token of the given tier to these holdings.
    pub fn push_bonus_token(&mut self, b: BonusType, v: u64)
        requires
            old(self).wf(),
        ensures
            final(self).wf(),
            final(self).goods == old(self).goods,
            final(self).bonus_at(b) == old(self).bonus_at(b).push(v),
            forall|c: BonusType|
                c != b ==> (#[trigger] final(self).bonus_at(c)) == old(self).bonus_at(c),
    {
        let bi = bonus_slot(b);
        self.bonus[bi].push(v);
        proof {
            assert forall|c: BonusType| c != b implies (#[trigger] self.bonus_at(c)) == old(self).bonus_at(c) by {
                lemma_bonus_index_injective(c, b);
            }
        }
    }

    /// How many good-type stacks are exhausted; three or more after a sale
    /// is a terminal signal.
    pub fn num_empty_goods_stacks(&self) -> (r: usize)
        ensures
            r == self.spec_num_empty_goods_stacks(),
    {
        let mut count: usize = 0;
        let mut i: usize = 0;
        while i < self.goods.len()
            invariant
                i <= self.goods@.len(),
                count <= i,
                count_empty_from(self.goods@, 0) == count + count_empty_from(
                    self.goods@,
                    i as int,
                ),
            decreases self.goods@.len() - i,
        {
            if self.goods[i].len() == 0 {
                count = count + 1;
            }
            i = i + 1;
        }
        count
    }
}

/// Sums one stack of token values.
fn sum_values(v: &Vec<u64>) -> (r: u64)
    requires
        seq_sum(v@) <= u64::MAX,
    ensures
        r == seq_sum(v@),
{
    let mut acc: u64 = 0;
    let mut i: usize = 0;
    while i < v.len()
        invariant
            i <= v@.len(),
            seq_sum(v@) <= u64::MAX,
            seq_sum(v@) == acc + sum_from(v@, i as int),
        decreases v@.len() - i,
    {
        proof {
            lemma_sum_from_nonneg(v@, i as int + 1);
        }
        acc = acc + v[i];
        i = i + 1;
    }
    acc
}

/// Total value of all tokens held: the player's end-of-game tally, before
/// any camel bonus. A pure read of the holdings.
pub fn get_tokens_score(tokens: &Tokens) -> (r: u64)
    requires
        tokens.spec_total() <= u64::MAX,
    ensures
        r == tokens.spec_total(),
{
    let mut acc: u64 = 0;
    let mut i: usize = 0;
    proof {
        lemma_stacks_sum_from_nonneg(tokens.bonus@, 0);
    }
    while i < tokens.goods.len()
        invariant
            i <= tokens.goods@.len(),
            tokens.spec_total() <= u64::MAX,
            stacks_sum_from(tokens.goods@, 0) == acc + stacks_sum_from(tokens.goods@, i as int),
            stacks_sum_from(tokens.bonus@, 0) >= 0,
            acc >= 0,
        decreases tokens.goods@.len() - i,
    {
        proof {
            lemma_stacks_sum_from_nonneg(tokens.goods@, i as int + 1);
            lemma_sum_from_nonneg(tokens.goods@[i as int]@, 0);
        }
        acc = acc + sum_values(&tokens.goods[i]);
        i = i + 1;
    }
    let mut j: usize = 0;
    while j < tokens.bonus.len()
        invariant
            j <= tokens.bonus@.len(),
            tokens.spec_total() <= u64::MAX,
            acc == stacks_sum_from(tokens.goods@, 0) + (stacks_sum_from(tokens.bonus@, 0)
                - stacks_sum_from(tokens.bonus@, j as int)),
            stacks_sum_from(tokens.goods@, 0) >= 0,
        decreases tokens.bonus@.len() - j,
    {
        proof {
            lemma_stacks_sum_from_nonneg(tokens.bonus@, j as int + 1);
            lemma_sum_from_nonneg(tokens.bonus@[j as int]@, 0);
        }
        acc = acc + sum_values(&tokens.bonus[j]);
        j = j + 1;
    }
    acc
}

} // verus!
