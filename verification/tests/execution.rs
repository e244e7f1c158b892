use jaipur_core::card::{CardType, GoodType};
use jaipur_core::execution::{
    execute_exchange_goods, execute_sell_goods, execute_take_all_camels, execute_take_single_good,
    GameTable,
};
use jaipur_core::resources::{DiscardPile, GameState, Hand};
use jaipur_core::rules::{validate, MoveType, MoveValidity, TurnState};
use jaipur_core::selection::SelectionSet;
use jaipur_core::tokens::Tokens;

fn table_with(deck: Vec<CardType>, market: Vec<CardType>, tokens: Tokens) -> GameTable {
    GameTable {
        deck,
        market,
        tokens,
        discard: DiscardPile::new(),
        state: GameState { is_game_over: false },
    }
}

fn five_goods_market() -> Vec<CardType> {
    vec![
        CardType::Good(GoodType::Diamond),
        CardType::Good(GoodType::Cloth),
        CardType::Good(GoodType::Leather),
        CardType::Good(GoodType::Spice),
        CardType::Good(GoodType::Gold),
    ]
}

#[test]
fn take_single_good_refills_the_slot_from_the_deck() {
    let deck = vec![CardType::Camel, CardType::Good(GoodType::Silver)];
    let mut table = table_with(deck, five_goods_market(), Tokens::create_game_tokens());
    let mut hand = Hand::new(vec![GoodType::Gold], 1);
    let sel = SelectionSet { market: vec![2], hand_goods: vec![], hand_camels: 0 };
    assert_eq!(
        validate(TurnState::Take, &sel, &table.market, &hand),
        MoveValidity::Valid(MoveType::TakeSingleGood)
    );
    execute_take_single_good(&mut table, &mut hand, &sel);
    assert_eq!(hand.goods, vec![GoodType::Gold, GoodType::Leather]);
    assert_eq!(hand.camels, 1);
    // the last deck card fills the emptied slot in place
    assert_eq!(table.market[2], CardType::Good(GoodType::Silver));
    assert_eq!(table.market.len(), 5);
    assert_eq!(table.deck, vec![CardType::Camel]);
    assert!(!table.state.is_game_over);
}

#[test]
fn take_single_good_with_empty_deck_ends_the_game() {
    let mut table = table_with(Vec::new(), five_goods_market(), Tokens::create_game_tokens());
    let mut hand = Hand::new(vec![], 0);
    let sel = SelectionSet { market: vec![0], hand_goods: vec![], hand_camels: 0 };
    assert_eq!(
        validate(TurnState::Take, &sel, &table.market, &hand),
        MoveValidity::Valid(MoveType::TakeSingleGood)
    );
    execute_take_single_good(&mut table, &mut hand, &sel);
    // the move still completes: the hand gains the good, the slot stays
    // empty, and the terminal flag is set
    assert_eq!(hand.goods, vec![GoodType::Diamond]);
    assert!(table.state.is_game_over);
    assert_eq!(table.market.len(), 4);
    // re-running the rule engine on the cleared selection yields Invalid
    let cleared = SelectionSet::new();
    assert_eq!(
        validate(TurnState::Take, &cleared, &table.market, &hand),
        MoveValidity::Invalid
    );
    assert_eq!(
        validate(TurnState::Sell, &cleared, &table.market, &hand),
        MoveValidity::Invalid
    );
}

#[test]
fn take_all_camels_refills_each_slot() {
    let market = vec![
        CardType::Camel,
        CardType::Good(GoodType::Cloth),
        CardType::Camel,
        CardType::Good(GoodType::Spice),
        CardType::Good(GoodType::Gold),
    ];
    let deck = vec![
        CardType::Good(GoodType::Leather),
        CardType::Good(GoodType::Silver),
        CardType::Good(GoodType::Diamond),
    ];
    let mut table = table_with(deck, market, Tokens::create_game_tokens());
    let mut hand = Hand::new(vec![], 1);
    let sel = SelectionSet { market: vec![0, 2], hand_goods: vec![], hand_camels: 0 };
    assert_eq!(
        validate(TurnState::Take, &sel, &table.market, &hand),
        MoveValidity::Valid(MoveType::TakeAllCamels)
    );
    execute_take_all_camels(&mut table, &mut hand, &sel);
    assert_eq!(hand.camels, 3);
    assert!(hand.goods.is_empty());
    // slots are processed from the highest index down, drawing from the
    // deck's end: slot 2 gets the diamond, slot 0 the silver
    assert_eq!(
        table.market,
        vec![
            CardType::Good(GoodType::Silver),
            CardType::Good(GoodType::Cloth),
            CardType::Good(GoodType::Diamond),
            CardType::Good(GoodType::Spice),
            CardType::Good(GoodType::Gold),
        ]
    );
    assert_eq!(table.deck, vec![CardType::Good(GoodType::Leather)]);
    assert!(!table.state.is_game_over);
}

#[test]
fn take_all_camels_with_short_deck_ends_the_game() {
    let market = vec![
        CardType::Camel,
        CardType::Camel,
        CardType::Camel,
        CardType::Good(GoodType::Spice),
        CardType::Good(GoodType::Gold),
    ];
    let deck = vec![CardType::Good(GoodType::Silver)];
    let mut table = table_with(deck, market, Tokens::create_game_tokens());
    let mut hand = Hand::new(vec![], 0);
    let sel = SelectionSet { market: vec![0, 1, 2], hand_goods: vec![], hand_camels: 0 };
    assert_eq!(
        validate(TurnState::Take, &sel, &table.market, &hand),
        MoveValidity::Valid(MoveType::TakeAllCamels)
    );
    execute_take_all_camels(&mut table, &mut hand, &sel);
    assert_eq!(hand.camels, 3);
    assert!(table.state.is_game_over);
    // only the highest camel slot could be refilled before the deck ran out
    assert_eq!(
        table.market,
        vec![
            CardType::Good(GoodType::Silver),
            CardType::Good(GoodType::Spice),
            CardType::Good(GoodType::Gold),
        ]
    );
    assert!(table.deck.is_empty());
}

#[test]
fn exchange_swaps_goods_and_spends_camels() {
    let market = vec![
        CardType::Good(GoodType::Diamond),
        CardType::Good(GoodType::Gold),
        CardType::Good(GoodType::Leather),
        CardType::Camel,
        CardType::Camel,
    ];
    let deck = vec![CardType::Camel];
    let mut table = table_with(deck, market, Tokens::create_game_tokens());
    // offer one spice and two camels for the diamond, gold and leather
    let mut hand = Hand::new(vec![GoodType::Spice], 2);
    let sel = SelectionSet { market: vec![0, 1, 2], hand_goods: vec![0], hand_camels: 2 };
    assert_eq!(
        validate(TurnState::Take, &sel, &table.market, &hand),
        MoveValidity::Valid(MoveType::ExchangeForGoodsFromMarket)
    );
    execute_exchange_goods(&mut table, &mut hand, &sel);
    // hand good 0 swapped with market slot 0; camels bought slots 1 and 2
    assert_eq!(hand.goods, vec![GoodType::Diamond, GoodType::Gold, GoodType::Leather]);
    assert_eq!(hand.camels, 0);
    assert_eq!(
        table.market,
        vec![
            CardType::Good(GoodType::Spice),
            CardType::Camel,
            CardType::Camel,
            CardType::Camel,
            CardType::Camel,
        ]
    );
    // no card leaves the game, so the deck is untouched
    assert_eq!(table.deck, vec![CardType::Camel]);
    assert!(!table.state.is_game_over);
}

#[test]
fn selling_five_leather_awards_tokens_and_a_bonus() {
    let mut table = table_with(
        vec![CardType::Camel],
        five_goods_market(),
        Tokens::create_game_tokens(),
    );
    let mut hand = Hand::new(
        vec![
            GoodType::Leather,
            GoodType::Leather,
            GoodType::Leather,
            GoodType::Spice,
            GoodType::Leather,
            GoodType::Leather,
        ],
        0,
    );
    let mut player_tokens = Tokens::create_empty();
    let sel = SelectionSet { market: vec![], hand_goods: vec![4, 1, 0, 2, 5], hand_camels: 0 };
    assert_eq!(
        validate(TurnState::Sell, &sel, &table.market, &hand),
        MoveValidity::Valid(MoveType::SellGoods)
    );
    execute_sell_goods(&mut table, &mut hand, &mut player_tokens, &sel);
    // the hand loses exactly the five leather cards
    assert_eq!(hand.goods, vec![GoodType::Spice]);
    // the discard pile gains five leather cards
    assert_eq!(table.discard.cards, vec![CardType::Good(GoodType::Leather); 5]);
    // the five best leather rewards are popped, best first
    assert_eq!(player_tokens.goods[5], vec![4, 3, 2, 1, 1]);
    assert_eq!(table.tokens.goods[5], vec![1, 1, 1, 1]);
    // exactly one five-or-more bonus token is popped
    assert_eq!(player_tokens.bonus[2].len(), 1);
    assert!(player_tokens.bonus[2][0] == 8 || player_tokens.bonus[2][0] == 9
        || player_tokens.bonus[2][0] == 10);
    assert_eq!(table.tokens.bonus[2].len(), 4);
    assert!(player_tokens.bonus[0].is_empty());
    assert!(player_tokens.bonus[1].is_empty());
    assert!(!table.state.is_game_over);
}

#[test]
fn selling_three_cards_awards_the_three_tier_bonus() {
    let mut table = table_with(
        vec![CardType::Camel],
        five_goods_market(),
        Tokens::create_game_tokens(),
    );
    let mut hand = Hand::new(vec![GoodType::Spice; 3], 2);
    let mut player_tokens = Tokens::create_empty();
    let sel = SelectionSet { market: vec![], hand_goods: vec![0, 1, 2], hand_camels: 0 };
    assert_eq!(
        validate(TurnState::Sell, &sel, &table.market, &hand),
        MoveValidity::Valid(MoveType::SellGoods)
    );
    execute_sell_goods(&mut table, &mut hand, &mut player_tokens, &sel);
    assert!(hand.goods.is_empty());
    assert_eq!(hand.camels, 2);
    // spice rewards popped best first: 5, 3, 3
    assert_eq!(player_tokens.goods[4], vec![5, 3, 3]);
    assert_eq!(player_tokens.bonus[0].len(), 1);
    assert!(player_tokens.bonus[1].is_empty());
    assert!(player_tokens.bonus[2].is_empty());
}

#[test]
fn selling_past_the_stack_grants_no_extra_tokens() {
    // a bank whose leather stack holds a single token
    let bank = Tokens {
        goods: vec![vec![5, 5], vec![5, 5], vec![5, 5], vec![1, 1], vec![1, 1], vec![2]],
        bonus: vec![vec![1], vec![4], vec![8]],
    };
    let mut table = table_with(vec![CardType::Camel], five_goods_market(), bank);
    let mut hand = Hand::new(vec![GoodType::Leather, GoodType::Leather], 0);
    let mut player_tokens = Tokens::create_empty();
    let sel = SelectionSet { market: vec![], hand_goods: vec![0, 1], hand_camels: 0 };
    execute_sell_goods(&mut table, &mut hand, &mut player_tokens, &sel);
    // only one token was left; the second sale grants nothing, silently
    assert_eq!(player_tokens.goods[5], vec![2]);
    assert!(table.tokens.goods[5].is_empty());
    // a two-card sale has no bonus tier
    assert!(player_tokens.bonus[0].is_empty());
    assert!(player_tokens.bonus[1].is_empty());
    assert!(player_tokens.bonus[2].is_empty());
    assert!(!table.state.is_game_over);
}

#[test]
fn emptying_a_third_stack_ends_the_game() {
    let bank = Tokens {
        goods: vec![Vec::new(), Vec::new(), vec![5, 5], vec![1, 1], vec![1, 1], vec![2]],
        bonus: vec![vec![1], vec![4], vec![8]],
    };
    let mut table = table_with(vec![CardType::Camel], five_goods_market(), bank);
    let mut hand = Hand::new(vec![GoodType::Leather], 0);
    let mut player_tokens = Tokens::create_empty();
    let sel = SelectionSet { market: vec![], hand_goods: vec![0], hand_camels: 0 };
    execute_sell_goods(&mut table, &mut hand, &mut player_tokens, &sel);
    // diamond and gold were already exhausted; leather is the third
    assert!(table.state.is_game_over);
    assert_eq!(player_tokens.goods[5], vec![2]);
}
