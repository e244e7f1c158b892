//! Move executors: one handler per move type, the sole mutators of deck,
//! market, hands, token banks and discard pile.
//!
//! Each executor is invoked only with a selection the rule engine just
//! classified as valid for exactly that move type; it trusts the
//! classification and does not re-derive legality.

use vstd::prelude::*;

use crate::card::{CardType, GoodType};
use crate::resources::{DiscardPile, GameState, Hand};
use crate::rules::{
    count_market_camels, count_market_camels_from, count_sel_goods_from,
    lemma_no_sel_camels_all_goods, lemma_sel_counts_split, valid_move, MoveType, MoveValidity,
    TurnState,
};
use crate::selection::SelectionSet;
use crate::tokens::{bonus_for_sale_size, spec_bonus_for_sale_size, BonusType, Tokens};

verus! {

/// The market holds exactly this many card slots while the game is live.
pub const MARKET_SIZE: usize = 5;

/// The shared table state: draw deck, market row, token bank, discard pile
/// and the terminal flag.
#[derive(Clone, Debug)]
pub struct GameTable {
    /// Ordered draw deck; cards are drawn from the end, never reshuffled.
    pub deck: Vec<CardType>,
    /// The fixed row of face-up cards; slots are refilled in place.
    pub market: Vec<CardType>,
    /// The shared reward token bank.
    pub tokens: Tokens,
    /// The append-only pile of sold goods.
    pub discard: DiscardPile,
    /// The terminal-condition flag.
    pub state: GameState,
}

impl GameTable {
    /// While the game is not over the market holds exactly its five slots;
    /// it never exceeds them.
    pub open spec fn wf(self) -> bool {
        &&& self.tokens.wf()
        &&& self.market@.len() <= MARKET_SIZE
        &&& !self.state.is_game_over ==> self.market@.len() == MARKET_SIZE
    }
}

/// Applies a take-single-good move: the selected market good joins the
/// acting hand and the slot is refilled from the deck; an empty deck ends
/// the game instead of refilling, leaving the slot empty (the move still
/// completes).
pub fn execute_take_single_good(table: &mut GameTable, hand: &mut Hand, sel: &SelectionSet)
    requires
        old(table).wf(),
        old(hand).wf(),
        sel.wf(old(table).market@, *old(hand)),
        valid_move(TurnState::Take, *sel, old(table).market@, *old(hand)) == MoveValidity::Valid(
            MoveType::TakeSingleGood,
        ),
    ensures
        final(hand).goods@ == old(hand).goods@.push(
            old(table).market@[sel.market@[0] as int].spec_into_good_type(),
        ),
        final(hand).camels == old(hand).camels,
        final(hand).wf(),
        old(table).deck@.len() > 0 ==> final(table).market@ == old(table).market@.update(
            sel.market@[0] as int,
            old(table).deck@.last(),
        ) && final(table).deck@ == old(table).deck@.drop_last() && final(table).state == old(table).state,
        old(table).deck@.len() == 0 ==> final(table).market@ == old(table).market@.remove(
            sel.market@[0] as int,
        ) && final(table).deck@ == old(table).deck@ && final(table).state.is_game_over,
        final(table).tokens == old(table).tokens,
        final(table).discard == old(table).discard,
        final(table).wf(),
{
    proof {
        // the single selected market slot holds a good
        assert(count_sel_goods_from(old(table).market@, sel.market@, 1) == 0);
    }
    let i = sel.market[0];
    let good = table.market[i].into_good_type();
    hand.goods.push(good);
    match table.deck.pop() {
        Some(replacement) => {
            table.market[i] = replacement;
        },
        None => {
            let _ = table.market.remove(i);
            table.state.is_game_over = true;
        },
    }
}

/// Outcome of processing market slots for a take-all-camels move.
pub struct CamelTakeOutcome {
    pub market: Seq<CardType>,
    pub deck: Seq<CardType>,
    pub gained: int,
    pub exhausted: bool,
}

/// Processes market slots `0..j` from the highest index down: each camel
/// slot is emptied and refilled from the deck's end; once the deck is
/// exhausted the slot is removed instead and the move is marked as having
/// hit exhaustion.
pub open spec fn spec_take_camels(market: Seq<CardType>, deck: Seq<CardType>, j: int) -> CamelTakeOutcome
    decreases j,
{
    if j <= 0 {
        CamelTakeOutcome { market, deck, gained: 0, exhausted: false }
    } else if market[j - 1].is_camel() {
        if deck.len() > 0 {
            let rest = spec_take_camels(market.update(j - 1, deck.last()), deck.drop_last(), j - 1);
            CamelTakeOutcome {
                market: rest.market,
                deck: rest.deck,
                gained: rest.gained + 1,
                exhausted: rest.exhausted,
            }
        } else {
            let rest = spec_take_camels(market.remove(j - 1), deck, j - 1);
            CamelTakeOutcome {
                market: rest.market,
                deck: rest.deck,
                gained: rest.gained + 1,
                exhausted: true,
            }
        }
    } else {
        spec_take_camels(market, deck, j - 1)
    }
}

/// Number of camels among market slots `0..j`.
pub open spec fn count_camels_below(m: Seq<CardType>, j: int) -> int
    decreases j,
{
    if j <= 0 {
        0
    } else {
        count_camels_below(m, j - 1) + (if m[j - 1].is_camel() {
            1int
        } else {
            0int
        })
    }
}

proof fn lemma_camels_below_nonneg(m: Seq<CardType>, j: int)
    ensures
        count_camels_below(m, j) >= 0,
    decreases j,
{
    if j > 0 {
        lemma_camels_below_nonneg(m, j - 1);
    }
}

proof fn lemma_camels_below_update(m: Seq<CardType>, j: int, k: int, c: CardType)
    requires
        j <= k,
        0 <= k < m.len(),
    ensures
        count_camels_below(m.update(k, c), j) == count_camels_below(m, j),
    decreases j,
{
    if j > 0 {
        lemma_camels_below_update(m, j - 1, k, c);
    }
}

proof fn lemma_camels_below_remove(m: Seq<CardType>, j: int, k: int)
    requires
        j <= k,
        0 <= k < m.len(),
    ensures
        count_camels_below(m.remove(k), j) == count_camels_below(m, j),
    decreases j,
{
    if j > 0 {
        lemma_camels_below_remove(m, j - 1, k);
    }
}

/// The camels below any position plus the camels from it onward make up
/// the market's whole camel count.
pub proof fn lemma_camels_below_split(m: Seq<CardType>, i: int)
    requires
        0 <= i <= m.len(),
    ensures
        count_camels_below(m, m.len() as int) == count_camels_below(m, i) + count_market_camels_from(
            m,
            i,
        ),
    decreases m.len() - i,
{
    if i < m.len() {
        lemma_camels_below_split(m, i + 1);
    }
}

/// Structural facts about the camel-take outcome: it gains exactly the
/// camels processed, hits exhaustion exactly when the deck is short, and
/// preserves the market size otherwise.
pub proof fn lemma_take_camels_props(m: Seq<CardType>, d: Seq<CardType>, j: int)
    requires
        0 <= j <= m.len(),
    ensures
        spec_take_camels(m, d, j).gained == count_camels_below(m, j),
        spec_take_camels(m, d, j).exhausted == (count_camels_below(m, j) > d.len()),
        !spec_take_camels(m, d, j).exhausted ==> spec_take_camels(m, d, j).market.len() == m.len(),
    decreases j,
{
    lemma_camels_below_nonneg(m, j);
    if j > 0 {
        if m[j - 1].is_camel() {
            if d.len() > 0 {
                let m1 = m.update(j - 1, d.last());
                lemma_take_camels_props(m1, d.drop_last(), j - 1);
                lemma_camels_below_update(m, j - 1, j - 1, d.last());
            } else {
                let m1 = m.remove(j - 1);
                lemma_take_camels_props(m1, d, j - 1);
                lemma_camels_below_remove(m, j - 1, j - 1);
                lemma_camels_below_nonneg(m, j - 1);
            }
        } else {
            lemma_take_camels_props(m, d, j - 1);
        }
    }
}

/// Applies a take-all-camels move: every market camel joins the acting
/// hand's camel count and each emptied slot is refilled from the deck;
/// any refill failure sets the terminal flag (the move still completes).
pub fn execute_take_all_camels(table: &mut GameTable, hand: &mut Hand, sel: &SelectionSet)
    requires
        old(table).wf(),
        old(hand).wf(),
        sel.wf(old(table).market@, *old(hand)),
        valid_move(TurnState::Take, *sel, old(table).market@, *old(hand)) == MoveValidity::Valid(
            MoveType::TakeAllCamels,
        ),
        old(hand).camels + count_market_camels(old(table).market@) <= usize::MAX,
    ensures
        final(table).market@ == spec_take_camels(
            old(table).market@,
            old(table).deck@,
            old(table).market@.len() as int,
        ).market,
        final(table).deck@ == spec_take_camels(
            old(table).market@,
            old(table).deck@,
            old(table).market@.len() as int,
        ).deck,
        final(hand).camels == old(hand).camels + count_market_camels(old(table).market@),
        final(hand).goods == old(hand).goods,
        final(hand).wf(),
        final(table).state.is_game_over == (old(table).state.is_game_over || count_market_camels(
            old(table).market@,
        ) > old(table).deck@.len()),
        final(table).tokens == old(table).tokens,
        final(table).discard == old(table).discard,
        final(table).wf(),
{
    let ghost m0 = table.market@;
    let ghost d0 = table.deck@;
    let ghost full = spec_take_camels(m0, d0, m0.len() as int);
    proof {
        lemma_take_camels_props(m0, d0, m0.len() as int);
        lemma_camels_below_split(m0, 0);
    }
    let mut j: usize = table.market.len();
    while j > 0
        invariant
            j <= table.market@.len(),
            table.market@.len() <= m0.len(),
            full == spec_take_camels(m0, d0, m0.len() as int),
            full.gained == count_market_camels(m0),
            spec_take_camels(table.market@, table.deck@, j as int).market == full.market,
            spec_take_camels(table.market@, table.deck@, j as int).deck == full.deck,
            hand.camels + spec_take_camels(table.market@, table.deck@, j as int).gained == old(hand).camels + full.gained,
            (table.state.is_game_over || spec_take_camels(
                table.market@,
                table.deck@,
                j as int,
            ).exhausted) == (old(table).state.is_game_over || full.exhausted),
            old(table).state.is_game_over ==> table.state.is_game_over,
            old(hand).camels + full.gained <= usize::MAX,
            hand.camels >= old(hand).camels,
            hand.goods == old(hand).goods,
            table.tokens == old(table).tokens,
            table.discard == old(table).discard,
        decreases j,
    {
        let jj = j - 1;
        proof {
            lemma_take_camels_props(table.market@, table.deck@, j as int);
            lemma_camels_below_nonneg(table.market@, jj as int);
        }
        match table.market[jj] {
            CardType::Camel => {
                hand.camels = hand.camels + 1;
                match table.deck.pop() {
                    Some(replacement) => {
                        table.market[jj] = replacement;
                    },
                    None => {
                        let _ = table.market.remove(jj);
                        table.state.is_game_over = true;
                    },
                }
            },
            CardType::Good(_) => {},
        }
        j = jj;
    }
}

/// Swap phase of an exchange: pairs selected hand goods with selected
/// market goods in selection order and swaps their contents in place.
pub open spec fn spec_swap_phase(
    market: Seq<CardType>,
    goods: Seq<GoodType>,
    msel: Seq<usize>,
    hsel: Seq<usize>,
    j: int,
) -> (Seq<CardType>, Seq<GoodType>)
    decreases hsel.len() - j,
{
    if j < 0 || j >= hsel.len() {
        (market, goods)
    } else {
        spec_swap_phase(
            market.update(msel[j] as int, CardType::Good(goods[hsel[j] as int])),
            goods.update(hsel[j] as int, market[msel[j] as int].spec_into_good_type()),
            msel,
            hsel,
            j + 1,
        )
    }
}

/// Camel phase of an exchange: each remaining selected market good is
/// replaced by a camel from the hand and its good joins the hand.
pub open spec fn spec_camel_phase(
    market: Seq<CardType>,
    goods: Seq<GoodType>,
    msel: Seq<usize>,
    j: int,
) -> (Seq<CardType>, Seq<GoodType>)
    decreases msel.len() - j,
{
    if j < 0 || j >= msel.len() {
        (market, goods)
    } else {
        spec_camel_phase(
            market.update(msel[j] as int, CardType::Camel),
            goods.push(market[msel[j] as int].spec_into_good_type()),
            msel,
            j + 1,
        )
    }
}

/// The market and hand goods after a full exchange: hand goods pair first,
/// hand camels fill the remainder.
pub open spec fn spec_exchange(
    market: Seq<CardType>,
    goods: Seq<GoodType>,
    msel: Seq<usize>,
    hsel: Seq<usize>,
) -> (Seq<CardType>, Seq<GoodType>) {
    let swapped = spec_swap_phase(market, goods, msel, hsel, 0);
    spec_camel_phase(swapped.0, swapped.1, msel, hsel.len() as int)
}

proof fn lemma_swap_phase_lens(
    market: Seq<CardType>,
    goods: Seq<GoodType>,
    msel: Seq<usize>,
    hsel: Seq<usize>,
    j: int,
)
    requires
        hsel.len() <= msel.len(),
        forall|k: int| 0 <= k < msel.len() ==> (#[trigger] msel[k]) < market.len(),
        forall|k: int| 0 <= k < hsel.len() ==> (#[trigger] hsel[k]) < goods.len(),
    ensures
        spec_swap_phase(market, goods, msel, hsel, j).0.len() == market.len(),
        spec_swap_phase(market, goods, msel, hsel, j).1.len() == goods.len(),
    decreases hsel.len() - j,
{
    if 0 <= j && j < hsel.len() {
        lemma_swap_phase_lens(
            market.update(msel[j] as int, CardType::Good(goods[hsel[j] as int])),
            goods.update(hsel[j] as int, market[msel[j] as int].spec_into_good_type()),
            msel,
            hsel,
            j + 1,
        );
    }
}

proof fn lemma_camel_phase_lens(
    market: Seq<CardType>,
    goods: Seq<GoodType>,
    msel: Seq<usize>,
    j: int,
)
    requires
        0 <= j <= msel.len(),
        forall|k: int| 0 <= k < msel.len() ==> (#[trigger] msel[k]) < market.len(),
    ensures
        spec_camel_phase(market, goods, msel, j).0.len() == market.len(),
        spec_camel_phase(market, goods, msel, j).1.len() == goods.len() + (msel.len() - j),
    decreases msel.len() - j,
{
    if j < msel.len() {
        lemma_camel_phase_lens(
            market.update(msel[j] as int, CardType::Camel),
            goods.push(market[msel[j] as int].spec_into_good_type()),
            msel,
            j + 1,
        );
    }
}

/// Applies an exchange move: selected hand goods swap in place with the
/// first selected market goods, hand camels pay for the remainder, and no
/// card leaves the game, so the market is never refilled from the deck.
pub fn execute_exchange_goods(table: &mut GameTable, hand: &mut Hand, sel: &SelectionSet)
    requires
        old(table).wf(),
        old(hand).wf(),
        sel.wf(old(table).market@, *old(hand)),
        valid_move(TurnState::Take, *sel, old(table).market@, *old(hand)) == MoveValidity::Valid(
            MoveType::ExchangeForGoodsFromMarket,
        ),
    ensures
        final(table).market@ == spec_exchange(
            old(table).market@,
            old(hand).goods@,
            sel.market@,
            sel.hand_goods@,
        ).0,
        final(hand).goods@ == spec_exchange(
            old(table).market@,
            old(hand).goods@,
            sel.market@,
            sel.hand_goods@,
        ).1,
        final(hand).camels == old(hand).camels - (sel.market@.len() - sel.hand_goods@.len()),
        final(hand).wf(),
        final(table).deck == old(table).deck,
        final(table).tokens == old(table).tokens,
        final(table).discard == old(table).discard,
        final(table).state == old(table).state,
        final(table).wf(),
{
    let pairs = sel.hand_goods.len();
    let total = sel.market.len();
    let ghost m0 = table.market@;
    let ghost g0 = hand.goods@;
    let ghost full = spec_exchange(m0, g0, sel.market@, sel.hand_goods@);
    proof {
        // the exchange rule admits no selected market camels, so every
        // selected slot holds a good, and the two selection sides have
        // matching sizes
        lemma_sel_counts_split(m0, sel.market@, 0);
        lemma_no_sel_camels_all_goods(m0, sel.market@, 0);
        lemma_swap_phase_lens(m0, g0, sel.market@, sel.hand_goods@, 0);
        lemma_camel_phase_lens(
            spec_swap_phase(m0, g0, sel.market@, sel.hand_goods@, 0).0,
            spec_swap_phase(m0, g0, sel.market@, sel.hand_goods@, 0).1,
            sel.market@,
            pairs as int,
        );
    }
    let mut j: usize = 0;
    while j < pairs
        invariant
            j <= pairs,
            pairs == sel.hand_goods@.len(),
            total == sel.market@.len(),
            pairs <= total,
            table.market@.len() == m0.len(),
            hand.goods@.len() == g0.len(),
            sel.market@.no_duplicates(),
            sel.hand_goods@.no_duplicates(),
            forall|k: int| 0 <= k < sel.market@.len() ==> (#[trigger] sel.market@[k]) < m0.len(),
            forall|k: int|
                0 <= k < sel.hand_goods@.len() ==> (#[trigger] sel.hand_goods@[k]) < g0.len(),
            forall|k: int|
                j <= k < sel.market@.len() ==> table.market@[(#[trigger] sel.market@[k]) as int]
                    == m0[sel.market@[k] as int],
            forall|k: int|
                j <= k < pairs ==> hand.goods@[(#[trigger] sel.hand_goods@[k]) as int]
                    == g0[sel.hand_goods@[k] as int],
            forall|k: int|
                0 <= k < sel.market@.len() ==> m0[(#[trigger] sel.market@[k]) as int].is_good(),
            spec_camel_phase(
                spec_swap_phase(table.market@, hand.goods@, sel.market@, sel.hand_goods@, j as int).0,
                spec_swap_phase(table.market@, hand.goods@, sel.market@, sel.hand_goods@, j as int).1,
                sel.market@,
                pairs as int,
            ) == full,
            hand.camels == old(hand).camels,
            table.deck == old(table).deck,
            table.tokens == old(table).tokens,
            table.discard == old(table).discard,
            table.state == old(table).state,
        decreases pairs - j,
    {
        let mi = sel.market[j];
        let hi = sel.hand_goods[j];
        let ghost m_before = table.market@;
        let ghost g_before = hand.goods@;
        let hand_good = hand.goods[hi];
        let market_good = table.market[mi].into_good_type();
        table.market[mi] = CardType::Good(hand_good);
        hand.goods[hi] = market_good;
        proof {
            assert forall|k: int|
                j + 1 <= k < sel.market@.len() implies table.market@[(#[trigger] sel.market@[k]) as int]
                == m0[sel.market@[k] as int] by {
                assert(sel.market@[k] != sel.market@[j as int]);
            }
            assert forall|k: int|
                j + 1 <= k < pairs implies hand.goods@[(#[trigger] sel.hand_goods@[k]) as int]
                == g0[sel.hand_goods@[k] as int] by {
                assert(sel.hand_goods@[k] != sel.hand_goods@[j as int]);
            }
        }
        j = j + 1;
    }
    while j < total
        invariant
            pairs <= j <= total,
            pairs == sel.hand_goods@.len(),
            total == sel.market@.len(),
            table.market@.len() == m0.len(),
            hand.goods@.len() == g0.len() + (j - pairs),
            sel.market@.no_duplicates(),
            forall|k: int| 0 <= k < sel.market@.len() ==> (#[trigger] sel.market@[k]) < m0.len(),
            forall|k: int|
                j <= k < sel.market@.len() ==> table.market@[(#[trigger] sel.market@[k]) as int]
                    == m0[sel.market@[k] as int],
            forall|k: int|
                0 <= k < sel.market@.len() ==> m0[(#[trigger] sel.market@[k]) as int].is_good(),
            spec_camel_phase(table.market@, hand.goods@, sel.market@, j as int) == full,
            hand.camels == old(hand).camels,
            table.deck == old(table).deck,
            table.tokens == old(table).tokens,
            table.discard == old(table).discard,
            table.state == old(table).state,
        decreases total - j,
    {
        let mi = sel.market[j];
        let market_good = table.market[mi].into_good_type();
        table.market[mi] = CardType::Camel;
        hand.goods.push(market_good);
        proof {
            assert forall|k: int|
                j + 1 <= k < sel.market@.len() implies table.market@[(#[trigger] sel.market@[k]) as int]
                == m0[sel.market@[k] as int] by {
                assert(sel.market@[k] != sel.market@[j as int]);
            }
        }
        j = j + 1;
    }
    hand.camels = hand.camels - (total - pairs);
}

/// The hand's goods from position `i` on, with the selected indices
/// removed and the order of the rest kept.
pub open spec fn keep_unselected_from(goods: Seq<GoodType>, hsel: Seq<usize>, i: int) -> Seq<
    GoodType,
>
    decreases goods.len() - i,
{
    if i < 0 || i >= goods.len() {
        Seq::empty()
    } else {
        let rest = keep_unselected_from(goods, hsel, i + 1);
        if hsel.contains(i as usize) {
            rest
        } else {
            seq![goods[i]] + rest
        }
    }
}

/// A token stack after up to `k` pops from its top.
pub open spec fn stack_after_pops(stack: Seq<u64>, k: int) -> Seq<u64>
    decreases k,
{
    if k <= 0 || stack.len() == 0 {
        stack
    } else {
        stack_after_pops(stack.drop_last(), k - 1)
    }
}

/// The values yielded by up to `k` pops from a stack's top, in pop order.
pub open spec fn popped_values(stack: Seq<u64>, k: int) -> Seq<u64>
    decreases k,
{
    if k <= 0 || stack.len() == 0 {
        Seq::empty()
    } else {
        seq![stack.last()] + popped_values(stack.drop_last(), k - 1)
    }
}

/// Whether the selection list contains the given index.
fn sel_contains(hsel: &Vec<usize>, x: usize) -> (r: bool)
    ensures
        r == hsel@.contains(x),
{
    let mut j: usize = 0;
    while j < hsel.len()
        invariant
            j <= hsel@.len(),
            forall|k: int| 0 <= k < j ==> hsel@[k] != x,
        decreases hsel@.len() - j,
    {
        if hsel[j] == x {
            return true;
        }
        j = j + 1;
    }
    false
}

/// Pops one bank token per card sold (silently stopping when the stack is
/// exhausted) and pushes each popped value into the seller's holdings.
fn award_sale_tokens(bank: &mut Tokens, player: &mut Tokens, t: GoodType, k: usize)
    requires
        old(bank).wf(),
        old(player).wf(),
    ensures
        final(bank).wf(),
        final(player).wf(),
        final(bank).goods_at(t) == stack_after_pops(old(bank).goods_at(t), k as int),
        forall|h: GoodType|
            h != t ==> (#[trigger] final(bank).goods_at(h)) == old(bank).goods_at(h),
        final(bank).bonus == old(bank).bonus,
        final(player).goods_at(t) == old(player).goods_at(t) + popped_values(
            old(bank).goods_at(t),
            k as int,
        ),
        forall|h: GoodType|
            h != t ==> (#[trigger] final(player).goods_at(h)) == old(player).goods_at(h),
        final(player).bonus == old(player).bonus,
{
    let mut c: usize = 0;
    while c < k
        invariant
            c <= k,
            bank.wf(),
            player.wf(),
            stack_after_pops(bank.goods_at(t), k - c) == stack_after_pops(
                old(bank).goods_at(t),
                k as int,
            ),
            player.goods_at(t) + popped_values(bank.goods_at(t), k - c) == old(player).goods_at(t)
                + popped_values(old(bank).goods_at(t), k as int),
            forall|h: GoodType|
                h != t ==> (#[trigger] bank.goods_at(h)) == old(bank).goods_at(h),
            bank.bonus == old(bank).bonus,
            forall|h: GoodType|
                h != t ==> (#[trigger] player.goods_at(h)) == old(player).goods_at(h),
            player.bonus == old(player).bonus,
        decreases k - c,
    {
        let ghost stack_before = bank.goods_at(t);
        let ghost player_before = player.goods_at(t);
        match bank.pop_good_token(t) {
            Some(v) => {
                player.push_good_token(t, v);
                proof {
                    assert(player.goods_at(t) + popped_values(bank.goods_at(t), k - c - 1)
                        =~= player_before + (seq![v] + popped_values(
                        stack_before.drop_last(),
                        k - c - 1,
                    )));
                }
            },
            None => {},
        }
        c = c + 1;
    }
    proof {
        assert(player.goods_at(t) + popped_values(bank.goods_at(t), 0) =~= player.goods_at(t));
        assert(stack_after_pops(bank.goods_at(t), 0) == bank.goods_at(t));
    }
}

/// Applies a sell-goods move: every selected hand good moves to the
/// discard pile, one bank token per card is awarded while the good's stack
/// lasts, a bonus token is awarded for sales of three, four, or five or
/// more cards if that tier still has tokens, and the game ends once three
/// good-type stacks are exhausted.
pub fn execute_sell_goods(
    table: &mut GameTable,
    hand: &mut Hand,
    player_tokens: &mut Tokens,
    sel: &SelectionSet,
)
    requires
        old(table).wf(),
        old(hand).wf(),
        old(player_tokens).wf(),
        sel.wf(old(table).market@, *old(hand)),
        valid_move(TurnState::Sell, *sel, old(table).market@, *old(hand)) == MoveValidity::Valid(
            MoveType::SellGoods,
        ),
    ensures
        final(hand).goods@ == keep_unselected_from(old(hand).goods@, sel.hand_goods@, 0),
        final(hand).camels == old(hand).camels,
        final(hand).wf(),
        final(table).discard.cards@ == old(table).discard.cards@ + Seq::new(
            sel.hand_goods@.len(),
            |x: int| CardType::Good(old(hand).goods@[sel.hand_goods@[0] as int]),
        ),
        final(table).tokens.goods_at(old(hand).goods@[sel.hand_goods@[0] as int])
            == stack_after_pops(
            old(table).tokens.goods_at(old(hand).goods@[sel.hand_goods@[0] as int]),
            sel.hand_goods@.len() as int,
        ),
        forall|h: GoodType|
            h != old(hand).goods@[sel.hand_goods@[0] as int] ==> (#[trigger] final(table).tokens.goods_at(h)) == old(table).tokens.goods_at(h),
        final(player_tokens).goods_at(old(hand).goods@[sel.hand_goods@[0] as int]) == old(player_tokens).goods_at(old(hand).goods@[sel.hand_goods@[0] as int]) + popped_values(
            old(table).tokens.goods_at(old(hand).goods@[sel.hand_goods@[0] as int]),
            sel.hand_goods@.len() as int,
        ),
        forall|h: GoodType|
            h != old(hand).goods@[sel.hand_goods@[0] as int] ==> (#[trigger] final(player_tokens).goods_at(h)) == old(player_tokens).goods_at(h),
        spec_bonus_for_sale_size(sel.hand_goods@.len() as int) is None ==> final(table).tokens.bonus == old(table).tokens.bonus && final(player_tokens).bonus == old(player_tokens).bonus,
        forall|c: BonusType|
            spec_bonus_for_sale_size(sel.hand_goods@.len() as int) != Some(c) ==> (#[trigger] final(table).tokens.bonus_at(c)) == old(table).tokens.bonus_at(c),
        forall|c: BonusType|
            spec_bonus_for_sale_size(sel.hand_goods@.len() as int) != Some(c) ==> (#[trigger] final(player_tokens).bonus_at(c)) == old(player_tokens).bonus_at(c),
        forall|bt: BonusType|
            spec_bonus_for_sale_size(sel.hand_goods@.len() as int) == Some(bt) && old(table).tokens.bonus_at(bt).len() > 0 ==> (#[trigger] final(table).tokens.bonus_at(bt))
                == old(table).tokens.bonus_at(bt).drop_last() && final(player_tokens).bonus_at(bt)
                == old(player_tokens).bonus_at(bt).push(old(table).tokens.bonus_at(bt).last()),
        forall|bt: BonusType|
            spec_bonus_for_sale_size(sel.hand_goods@.len() as int) == Some(bt) && old(table).tokens.bonus_at(bt).len() == 0 ==> (#[trigger] final(table).tokens.bonus_at(bt))
                == old(table).tokens.bonus_at(bt) && final(player_tokens).bonus_at(bt) == old(player_tokens).bonus_at(bt),
        final(table).state.is_game_over == (old(table).state.is_game_over || final(table).tokens.spec_num_empty_goods_stacks() >= 3),
        final(table).deck == old(table).deck,
        final(table).market == old(table).market,
        final(table).wf(),
        final(player_tokens).wf(),
{
    let k = sel.hand_goods.len();
    let t = hand.goods[sel.hand_goods[0]];

    // Remove every selected good from the hand, keeping the rest in order.
    let mut kept: Vec<GoodType> = Vec::new();
    let mut i: usize = 0;
    while i < hand.goods.len()
        invariant
            i <= hand.goods@.len(),
            kept@.len() <= i,
            kept@ + keep_unselected_from(hand.goods@, sel.hand_goods@, i as int)
                == keep_unselected_from(hand.goods@, sel.hand_goods@, 0),
        decreases hand.goods@.len() - i,
    {
        if !sel_contains(&sel.hand_goods, i) {
            let ghost kept_before = kept@;
            kept.push(hand.goods[i]);
            proof {
                assert(kept@ + keep_unselected_from(hand.goods@, sel.hand_goods@, i + 1)
                    =~= kept_before + (seq![hand.goods@[i as int]] + keep_unselected_from(
                    hand.goods@,
                    sel.hand_goods@,
                    i + 1,
                )));
            }
        }
        i = i + 1;
    }
    proof {
        assert(kept@ + keep_unselected_from(hand.goods@, sel.hand_goods@, hand.goods@.len() as int)
            =~= kept@);
    }
    hand.goods = kept;

    // Push one sold card per selected good onto the discard pile.
    let mut c: usize = 0;
    while c < k
        invariant
            c <= k,
            table.discard.cards@ == old(table).discard.cards@ + Seq::new(
                c as nat,
                |x: int| CardType::Good(t),
            ),
            table.deck == old(table).deck,
            table.market == old(table).market,
            table.tokens == old(table).tokens,
            table.state == old(table).state,
        decreases k - c,
    {
        let ghost discard_before = table.discard.cards@;
        table.discard.cards.push(CardType::Good(t));
        proof {
            assert(discard_before.push(CardType::Good(t)) =~= old(table).discard.cards@
                + Seq::new((c + 1) as nat, |x: int| CardType::Good(t)));
        }
        c = c + 1;
    }

    // One bank token per card sold, while the stack lasts.
    award_sale_tokens(&mut table.tokens, player_tokens, t, k);
    let ghost bank_mid = table.tokens;
    let ghost player_mid = *player_tokens;

    // One bonus token for the sale-size tier, if any is left there.
    match bonus_for_sale_size(k) {
        Some(bt) => {
            match table.tokens.pop_bonus_token(bt) {
                Some(v) => {
                    player_tokens.push_bonus_token(bt, v);
                },
                None => {},
            }
        },
        None => {},
    }

    proof {
        // awarding the bonus token leaves every good stack as the sale left it
        assert forall|h: GoodType| h != t implies (#[trigger] table.tokens.goods_at(h))
            == old(table).tokens.goods_at(h) by {
            assert(bank_mid.goods_at(h) == old(table).tokens.goods_at(h));
            assert(table.tokens.goods == bank_mid.goods);
        }
        assert forall|h: GoodType| h != t implies (#[trigger] player_tokens.goods_at(h))
            == old(player_tokens).goods_at(h) by {
            assert(player_mid.goods_at(h) == old(player_tokens).goods_at(h));
            assert(player_tokens.goods == player_mid.goods);
        }
    }

    // Terminal condition: three or more exhausted good stacks end the game.
    if table.tokens.num_empty_goods_stacks() >= 3 {
        table.state.is_game_over = true;
    }
}

} // verus!
