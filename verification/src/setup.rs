//! Game setup: the shuffled deck, the initial market row, the starting
//! hands and the predealt token bank.

use vstd::prelude::*;
use vstd::seq_lib::*;

use crate::card::{CardType, GoodType};
use crate::execution::{GameTable, MARKET_SIZE};
use crate::randomness::shuffle;
use crate::resources::{count_goods_of_type, count_goods_of_type_from, DiscardPile, GameState, Hand};
use crate::rules::{count_market_camels, count_market_camels_from};
use crate::scorers::{count_market_goods_of_type, count_market_goods_of_type_from};
use crate::tokens::{BonusType, Tokens};

verus! {

/// Cards dealt to each player at the start of a game.
pub const STARTING_HAND_SIZE: usize = 5;

/// Number of cards in the full deck before dealing.
pub const STARTING_DECK_SIZE: usize = 55;

/// Number of camels in the full deck.
pub const STARTING_CAMELS: usize = 11;

/// One player's side of the table: a hand and the tokens won so far.
#[derive(Clone, Debug)]
pub struct PlayerState {
    pub hand: Hand,
    pub tokens: Tokens,
}

/// The card at each position of the undealt, unshuffled deck: eleven
/// camels, then the six goods in bank order (six diamond, six gold, six
/// silver, eight cloth, eight spice, ten leather), fifty-five in all.
pub open spec fn spec_starting_card(i: int) -> CardType {
    if i < 11 {
        CardType::Camel
    } else if i < 17 {
        CardType::Good(GoodType::Diamond)
    } else if i < 23 {
        CardType::Good(GoodType::Gold)
    } else if i < 29 {
        CardType::Good(GoodType::Silver)
    } else if i < 37 {
        CardType::Good(GoodType::Cloth)
    } else if i < 45 {
        CardType::Good(GoodType::Spice)
    } else {
        CardType::Good(GoodType::Leather)
    }
}

/// The full deck before shuffling, position by position.
pub open spec fn spec_starting_deck() -> Seq<CardType> {
    Seq::new(STARTING_DECK_SIZE as nat, |i: int| spec_starting_card(i))
}

/// How many cards of the given good type the full deck holds.
pub open spec fn spec_starting_good_count(g: GoodType) -> int {
    match g {
        GoodType::Diamond => 6,
        GoodType::Gold => 6,
        GoodType::Silver => 6,
        GoodType::Cloth => 8,
        GoodType::Spice => 8,
        GoodType::Leather => 10,
    }
}

/// First deck position holding the given good type.
spec fn spec_type_lo(g: GoodType) -> int {
    match g {
        GoodType::Diamond => 11,
        GoodType::Gold => 17,
        GoodType::Silver => 23,
        GoodType::Cloth => 29,
        GoodType::Spice => 37,
        GoodType::Leather => 45,
    }
}

/// One past the last deck position holding the given good type.
spec fn spec_type_hi(g: GoodType) -> int {
    match g {
        GoodType::Diamond => 17,
        GoodType::Gold => 23,
        GoodType::Silver => 29,
        GoodType::Cloth => 37,
        GoodType::Spice => 45,
        GoodType::Leather => 55,
    }
}

proof fn lemma_starting_type_count(g: GoodType, i: int)
    requires
        0 <= i <= STARTING_DECK_SIZE,
    ensures
        i <= spec_type_lo(g) ==> count_market_goods_of_type_from(spec_starting_deck(), g, i)
            == spec_type_hi(g) - spec_type_lo(g),
        spec_type_lo(g) <= i <= spec_type_hi(g) ==> count_market_goods_of_type_from(
            spec_starting_deck(),
            g,
            i,
        ) == spec_type_hi(g) - i,
        i >= spec_type_hi(g) ==> count_market_goods_of_type_from(spec_starting_deck(), g, i) == 0,
    decreases STARTING_DECK_SIZE - i,
{
    if i < STARTING_DECK_SIZE {
        lemma_starting_type_count(g, i + 1);
    }
}

proof fn lemma_starting_camel_count(i: int)
    requires
        0 <= i <= STARTING_DECK_SIZE,
    ensures
        i <= STARTING_CAMELS ==> count_market_camels_from(spec_starting_deck(), i)
            == STARTING_CAMELS - i,
        i >= STARTING_CAMELS ==> count_market_camels_from(spec_starting_deck(), i) == 0,
    decreases STARTING_DECK_SIZE - i,
{
    if i < STARTING_DECK_SIZE {
        lemma_starting_camel_count(i + 1);
    }
}

fn starting_card(i: usize) -> (r: CardType)
    ensures
        r == spec_starting_card(i as int),
{
    if i < 11 {
        CardType::Camel
    } else if i < 17 {
        CardType::Good(GoodType::Diamond)
    } else if i < 23 {
        CardType::Good(GoodType::Gold)
    } else if i < 29 {
        CardType::Good(GoodType::Silver)
    } else if i < 37 {
        CardType::Good(GoodType::Cloth)
    } else if i < 45 {
        CardType::Good(GoodType::Spice)
    } else {
        CardType::Good(GoodType::Leather)
    }
}

/// The full unshuffled deck.
pub fn starting_deck() -> (r: Vec<CardType>)
    ensures
        r@ == spec_starting_deck(),
{
    let mut deck: Vec<CardType> = Vec::new();
    let mut i: usize = 0;
    while i < STARTING_DECK_SIZE
        invariant
            i <= STARTING_DECK_SIZE,
            deck@ == Seq::new(i as nat, |k: int| spec_starting_card(k)),
        decreases STARTING_DECK_SIZE - i,
    {
        deck.push(starting_card(i));
        proof {
            assert(deck@ =~= Seq::new((i + 1) as nat, |k: int| spec_starting_card(k)));
        }
        i = i + 1;
    }
    proof {
        assert(deck@ =~= spec_starting_deck());
    }
    deck
}

/// Goods carried by the cards of `cards` from position `i` on, in order.
pub open spec fn spec_goods_of(cards: Seq<CardType>, i: int) -> Seq<GoodType>
    decreases cards.len() - i,
{
    if i < 0 || i >= cards.len() {
        Seq::empty()
    } else {
        let rest = spec_goods_of(cards, i + 1);
        match cards[i] {
            CardType::Camel => rest,
            CardType::Good(g) => seq![g] + rest,
        }
    }
}

/// Occurrences of the card `c` in `s` from position `i` on.
spec fn count_card_from(s: Seq<CardType>, c: CardType, i: int) -> int
    decreases s.len() - i,
{
    if i < 0 || i >= s.len() {
        0
    } else {
        (if s[i] == c {
            1int
        } else {
            0int
        }) + count_card_from(s, c, i + 1)
    }
}

proof fn lemma_count_card_shift(s: Seq<CardType>, c: CardType, i: int)
    requires
        1 <= i,
        s.len() >= 1,
    ensures
        count_card_from(s, c, i) == count_card_from(s.drop_first(), c, i - 1),
    decreases s.len() - i,
{
    if i < s.len() {
        lemma_count_card_shift(s, c, i + 1);
        assert(s.drop_first()[i - 1] == s[i]);
    }
}

/// Counting occurrences agrees with the sequence's multiset view.
proof fn lemma_count_card_multiset(s: Seq<CardType>, c: CardType)
    ensures
        count_card_from(s, c, 0) == s.to_multiset().count(c),
    decreases s.len(),
{
    broadcast use vstd::multiset::group_multiset_axioms;

    s.to_multiset_ensures();
    if s.len() == 0 {
        assert(!s.contains(c));
    } else {
        let rest = s.remove(0);
        lemma_count_card_multiset(rest, c);
        lemma_count_card_shift(s, c, 1);
        assert(s.drop_first() =~= rest);
        to_multiset_remove(s, 0);
        assert(s.contains(s[0]));
    }
}

proof fn lemma_count_camels_as_card(s: Seq<CardType>, i: int)
    ensures
        count_market_camels_from(s, i) == count_card_from(s, CardType::Camel, i),
    decreases s.len() - i,
{
    if 0 <= i && i < s.len() {
        lemma_count_camels_as_card(s, i + 1);
    }
}

proof fn lemma_count_type_as_card(s: Seq<CardType>, g: GoodType, i: int)
    ensures
        count_market_goods_of_type_from(s, g, i) == count_card_from(s, CardType::Good(g), i),
    decreases s.len() - i,
{
    if 0 <= i && i < s.len() {
        lemma_count_type_as_card(s, g, i + 1);
    }
}

proof fn lemma_goods_count_shift(s: Seq<GoodType>, g: GoodType, i: int)
    requires
        1 <= i,
        s.len() >= 1,
    ensures
        count_goods_of_type_from(s, g, i) == count_goods_of_type_from(s.drop_first(), g, i - 1),
    decreases s.len() - i,
{
    if i < s.len() {
        lemma_goods_count_shift(s, g, i + 1);
        assert(s.drop_first()[i - 1] == s[i]);
    }
}

/// Splitting a pile of cards into its goods keeps each type's count.
proof fn lemma_goods_of_counts(cards: Seq<CardType>, g: GoodType, i: int)
    requires
        0 <= i,
    ensures
        count_goods_of_type(spec_goods_of(cards, i), g) == count_market_goods_of_type_from(
            cards,
            g,
            i,
        ),
    decreases cards.len() - i,
{
    if i < cards.len() {
        lemma_goods_of_counts(cards, g, i + 1);
        match cards[i] {
            CardType::Camel => {},
            CardType::Good(x) => {
                let rest = spec_goods_of(cards, i + 1);
                let whole = seq![x] + rest;
                lemma_goods_count_shift(whole, g, 1);
                assert(whole.drop_first() =~= rest);
                assert(whole[0] == x);
            },
        }
    }
}

/// Splits a dealt pile of cards into its camel count and its goods list,
/// keeping the goods in deal order.
pub fn partition_hand(cards: Vec<CardType>) -> (r: (usize, Vec<GoodType>))
    ensures
        r.0 == count_market_camels(cards@),
        r.1@ == spec_goods_of(cards@, 0),
        r.0 + r.1@.len() == cards@.len(),
{
    let mut camels: usize = 0;
    let mut goods: Vec<GoodType> = Vec::new();
    let mut i: usize = 0;
    while i < cards.len()
        invariant
            i <= cards@.len(),
            camels + goods@.len() == i,
            count_market_camels(cards@) == camels + count_market_camels_from(cards@, i as int),
            goods@ + spec_goods_of(cards@, i as int) == spec_goods_of(cards@, 0),
        decreases cards@.len() - i,
    {
        let ghost before = goods@;
        match cards[i] {
            CardType::Camel => {
                camels = camels + 1;
            },
            CardType::Good(g) => {
                goods.push(g);
                proof {
                    assert(goods@ + spec_goods_of(cards@, i + 1) =~= before + (seq![g]
                        + spec_goods_of(cards@, i + 1)));
                }
            },
        }
        i = i + 1;
    }
    proof {
        assert(goods@ + spec_goods_of(cards@, cards@.len() as int) =~= goods@);
    }
    (camels, goods)
}

/// Deals `n` cards from the deck's end into a fresh pile; no card is
/// created or lost.
fn deal(deck: &mut Vec<CardType>, n: usize) -> (r: Vec<CardType>)
    requires
        n <= old(deck)@.len(),
    ensures
        r@.len() == n,
        final(deck)@ == old(deck)@.subrange(0, old(deck)@.len() - n),
        r@.to_multiset().add(final(deck)@.to_multiset()) == old(deck)@.to_multiset(),
{
    let mut dealt: Vec<CardType> = Vec::new();
    proof {
        broadcast use vstd::multiset::group_multiset_axioms;

        dealt@.to_multiset_ensures();
        assert(dealt@.to_multiset().add(deck@.to_multiset()) =~= deck@.to_multiset()) by {
            assert(forall|c: CardType| !dealt@.contains(c));
        }
    }
    let mut i: usize = 0;
    while i < n
        invariant
            i <= n,
            n <= old(deck)@.len(),
            dealt@.len() == i,
            deck@ == old(deck)@.subrange(0, old(deck)@.len() - i),
            dealt@.to_multiset().add(deck@.to_multiset()) == old(deck)@.to_multiset(),
        decreases n - i,
    {
        let ghost deck_before = deck@;
        let ghost dealt_before = dealt@;
        match deck.pop() {
            Some(c) => {
                dealt.push(c);
                proof {
                    broadcast use vstd::multiset::group_multiset_axioms;

                    assert(deck@ =~= deck_before.remove(deck_before.len() - 1));
                    to_multiset_remove(deck_before, deck_before.len() - 1);
                    to_multiset_build(dealt_before, c);
                    deck_before.to_multiset_ensures();
                    assert(deck_before.contains(deck_before[deck_before.len() - 1]));
                    assert(dealt@.to_multiset().add(deck@.to_multiset())
                        =~= dealt_before.to_multiset().add(deck_before.to_multiset()));
                }
            },
            None => {
                unreached()
            },
        }
        proof {
            assert(deck@ =~= old(deck)@.subrange(0, old(deck)@.len() - i - 1));
        }
        i = i + 1;
    }
    dealt
}

/// Sets up a fresh game: the shuffled fifty-five-card deck deals five
/// market slots and five cards to each hand, the bank starts predealt,
/// and both players start with no tokens. Together the deck, the market
/// and the two hands hold exactly the starting cards.
pub fn setup_game() -> (r: (GameTable, PlayerState, PlayerState))
    ensures
        r.0.wf(),
        !r.0.state.is_game_over,
        r.0.market@.len() == MARKET_SIZE,
        r.0.deck@.len() == STARTING_DECK_SIZE - MARKET_SIZE - 2 * STARTING_HAND_SIZE,
        r.0.discard.cards@.len() == 0,
        r.1.hand.wf(),
        r.2.hand.wf(),
        r.1.hand.goods@.len() + r.1.hand.camels == STARTING_HAND_SIZE,
        r.2.hand.goods@.len() + r.2.hand.camels == STARTING_HAND_SIZE,
        r.1.tokens.wf(),
        r.2.tokens.wf(),
        r.1.tokens.spec_total() == 0,
        r.2.tokens.spec_total() == 0,
        // the bank starts exactly predealt
        r.0.tokens.goods_at(GoodType::Diamond) == seq![5u64, 5u64, 5u64, 7u64, 7u64],
        r.0.tokens.goods_at(GoodType::Gold) == seq![5u64, 5u64, 5u64, 6u64, 6u64],
        r.0.tokens.goods_at(GoodType::Silver) == seq![5u64, 5u64, 5u64, 5u64, 5u64],
        r.0.tokens.goods_at(GoodType::Cloth) == seq![1u64, 1u64, 2u64, 2u64, 3u64, 3u64, 5u64],
        r.0.tokens.goods_at(GoodType::Spice) == seq![1u64, 1u64, 2u64, 2u64, 3u64, 3u64, 5u64],
        r.0.tokens.goods_at(GoodType::Leather) == seq![
            1u64,
            1u64,
            1u64,
            1u64,
            1u64,
            1u64,
            2u64,
            3u64,
            4u64,
        ],
        r.0.tokens.bonus_at(BonusType::Three).to_multiset() == seq![
            3u64,
            3u64,
            2u64,
            2u64,
            2u64,
            1u64,
            1u64,
        ].to_multiset(),
        r.0.tokens.bonus_at(BonusType::Four).to_multiset() == seq![
            6u64,
            6u64,
            5u64,
            5u64,
            4u64,
            4u64,
        ].to_multiset(),
        r.0.tokens.bonus_at(BonusType::Five).to_multiset() == seq![
            10u64,
            10u64,
            9u64,
            8u64,
            8u64,
        ].to_multiset(),
        r.0.tokens.bonus_at(BonusType::Three).len() == 7,
        r.0.tokens.bonus_at(BonusType::Four).len() == 6,
        r.0.tokens.bonus_at(BonusType::Five).len() == 5,
        // the deal conserves the starting cards: every good type's count
        // across deck, market and both hands is its count in the full deck
        forall|g: GoodType|
            #![trigger count_market_goods_of_type(r.0.deck@, g)]
            #![trigger spec_starting_good_count(g)]
            count_market_goods_of_type(r.0.deck@, g) + count_market_goods_of_type(r.0.market@, g)
                + count_goods_of_type(r.1.hand.goods@, g) + count_goods_of_type(
                r.2.hand.goods@,
                g,
            ) == spec_starting_good_count(g),
        count_market_camels(r.0.deck@) + count_market_camels(r.0.market@) + r.1.hand.camels
            + r.2.hand.camels == STARTING_CAMELS,
{
    let mut deck = starting_deck();
    shuffle(&mut deck);
    let ghost d1 = deck@;
    let market = deal(&mut deck, MARKET_SIZE);
    let ghost d2 = deck@;
    let pile_one = deal(&mut deck, STARTING_HAND_SIZE);
    let ghost d3 = deck@;
    let pile_two = deal(&mut deck, STARTING_HAND_SIZE);
    let ghost p1 = pile_one@;
    let ghost p2 = pile_two@;
    let (camels_one, goods_one) = partition_hand(pile_one);
    let (camels_two, goods_two) = partition_hand(pile_two);
    proof {
        broadcast use vstd::multiset::group_multiset_axioms;

        let s0 = spec_starting_deck();
        // camels: the shuffle and the three deals keep every count
        lemma_starting_camel_count(0);
        lemma_count_camels_as_card(s0, 0);
        lemma_count_card_multiset(s0, CardType::Camel);
        lemma_count_camels_as_card(deck@, 0);
        lemma_count_card_multiset(deck@, CardType::Camel);
        lemma_count_camels_as_card(market@, 0);
        lemma_count_card_multiset(market@, CardType::Camel);
        lemma_count_camels_as_card(p1, 0);
        lemma_count_card_multiset(p1, CardType::Camel);
        lemma_count_camels_as_card(p2, 0);
        lemma_count_card_multiset(p2, CardType::Camel);
        // goods: likewise, for every type at once
        assert forall|g: GoodType|
            count_market_goods_of_type(deck@, g) + count_market_goods_of_type(market@, g)
                + count_goods_of_type(goods_one@, g) + count_goods_of_type(goods_two@, g)
                == #[trigger] spec_starting_good_count(g) by {
            let cg = CardType::Good(g);
            lemma_starting_type_count(g, 0);
            lemma_count_type_as_card(s0, g, 0);
            lemma_count_card_multiset(s0, cg);
            lemma_count_type_as_card(deck@, g, 0);
            lemma_count_card_multiset(deck@, cg);
            lemma_count_type_as_card(market@, g, 0);
            lemma_count_card_multiset(market@, cg);
            lemma_count_type_as_card(p1, g, 0);
            lemma_count_card_multiset(p1, cg);
            lemma_count_type_as_card(p2, g, 0);
            lemma_count_card_multiset(p2, cg);
            lemma_goods_of_counts(p1, g, 0);
            lemma_goods_of_counts(p2, g, 0);
        }
    }
    let table = GameTable {
        deck,
        market,
        tokens: Tokens::create_game_tokens(),
        discard: DiscardPile::new(),
        state: GameState::new(),
    };
    let player_one = PlayerState {
        hand: Hand::new(goods_one, camels_one),
        tokens: Tokens::create_empty(),
    };
    let player_two = PlayerState {
        hand: Hand::new(goods_two, camels_two),
        tokens: Tokens::create_empty(),
    };
    (table, player_one, player_two)
}

} // verus!
