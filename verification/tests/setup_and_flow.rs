use jaipur_core::card::{CardType, GoodType};
use jaipur_core::execution::execute_take_single_good;
use jaipur_core::picker::{candidates_in_order, HighestScorePicker};
use jaipur_core::rules::{validate, MoveType, MoveValidity, TurnState};
use jaipur_core::scorers::{
    exchange_goods_scorer, sell_goods_scorer, take_all_camels_scorer, take_single_good_scorer,
};
use jaipur_core::selection::SelectionSet;
use jaipur_core::setup::{partition_hand, setup_game, starting_deck};

#[test]
fn the_starting_deck_has_the_full_composition() {
    let deck = starting_deck();
    assert_eq!(deck.len(), 55);
    let count = |c: CardType| deck.iter().filter(|x| **x == c).count();
    assert_eq!(count(CardType::Camel), 11);
    assert_eq!(count(CardType::Good(GoodType::Diamond)), 6);
    assert_eq!(count(CardType::Good(GoodType::Gold)), 6);
    assert_eq!(count(CardType::Good(GoodType::Silver)), 6);
    assert_eq!(count(CardType::Good(GoodType::Cloth)), 8);
    assert_eq!(count(CardType::Good(GoodType::Spice)), 8);
    assert_eq!(count(CardType::Good(GoodType::Leather)), 10);
}

#[test]
fn partition_hand_splits_camels_from_goods() {
    let (camels, goods) = partition_hand(vec![
        CardType::Camel,
        CardType::Good(GoodType::Spice),
        CardType::Camel,
        CardType::Good(GoodType::Leather),
        CardType::Good(GoodType::Spice),
    ]);
    assert_eq!(camels, 2);
    assert_eq!(goods, vec![GoodType::Spice, GoodType::Leather, GoodType::Spice]);
}

#[test]
fn a_fresh_game_deals_the_table_and_both_hands() {
    let (table, one, two) = setup_game();
    assert_eq!(table.market.len(), 5);
    assert_eq!(table.deck.len(), 40);
    assert!(table.discard.cards.is_empty());
    assert!(!table.state.is_game_over);
    assert_eq!(one.hand.goods.len() + one.hand.camels, 5);
    assert_eq!(two.hand.goods.len() + two.hand.camels, 5);
    assert!(one.tokens.goods.iter().all(|s| s.is_empty()));
    assert!(two.tokens.bonus.iter().all(|s| s.is_empty()));
    // the bank starts exactly predealt
    assert_eq!(table.tokens.goods[0], vec![5, 5, 5, 7, 7]);
    assert_eq!(table.tokens.goods[5], vec![1, 1, 1, 1, 1, 1, 2, 3, 4]);
    assert_eq!(table.tokens.bonus[0].len(), 7);
    assert_eq!(table.tokens.bonus[1].len(), 6);
    assert_eq!(table.tokens.bonus[2].len(), 5);
    // the deal conserves the 55-card pool, type by type
    let mut pool: Vec<CardType> = Vec::new();
    pool.extend(table.deck.iter().copied());
    pool.extend(table.market.iter().copied());
    for h in [&one.hand, &two.hand] {
        pool.extend(h.goods.iter().map(|g| CardType::Good(*g)));
        pool.extend(std::iter::repeat(CardType::Camel).take(h.camels));
    }
    assert_eq!(pool.len(), 55);
    let count = |c: CardType| pool.iter().filter(|x| **x == c).count();
    assert_eq!(count(CardType::Camel), 11);
    assert_eq!(count(CardType::Good(GoodType::Diamond)), 6);
    assert_eq!(count(CardType::Good(GoodType::Gold)), 6);
    assert_eq!(count(CardType::Good(GoodType::Silver)), 6);
    assert_eq!(count(CardType::Good(GoodType::Cloth)), 8);
    assert_eq!(count(CardType::Good(GoodType::Spice)), 8);
    assert_eq!(count(CardType::Good(GoodType::Leather)), 10);
}

#[test]
fn a_scored_move_passes_the_rule_engine_and_executes() {
    // a deterministic mid-game position
    let market = vec![
        CardType::Good(GoodType::Diamond),
        CardType::Good(GoodType::Leather),
        CardType::Camel,
        CardType::Good(GoodType::Spice),
        CardType::Camel,
    ];
    let hand = jaipur_core::resources::Hand::new(vec![GoodType::Leather], 1);
    let opponent = jaipur_core::resources::Hand::new(vec![GoodType::Cloth; 3], 0);

    let (s_take, c_take) = take_single_good_scorer(&market, &hand);
    let (s_sell, _c_sell) = sell_goods_scorer(&hand);
    let (s_camels, _c_camels) = take_all_camels_scorer(&market, &hand, &opponent);
    let (s_exchange, c_exchange) = exchange_goods_scorer(&market, &hand);
    // the hand's only good is in the market and one camel gives a single
    // pair, so no exchange of two can be formed
    assert_eq!(s_exchange, 0);
    assert!(c_exchange.is_none());
    let candidates = candidates_in_order(s_take, s_sell, s_camels, s_exchange);

    let picker = HighestScorePicker::new(1000);
    let chosen = picker.pick(&candidates).expect("some move is desirable");
    // leather in hand makes the second leather the best take (0.4), above
    // selling one leather (0.2) and taking two camels (0.1625)
    assert_eq!(chosen, MoveType::TakeSingleGood);

    // the cached selection goes through the same rule engine as a human's
    let sel = c_take.expect("the scorer cached a selection");
    assert_eq!(
        validate(TurnState::Take, &sel, &market, &hand),
        MoveValidity::Valid(MoveType::TakeSingleGood)
    );

    let mut table = jaipur_core::execution::GameTable {
        deck: vec![CardType::Camel],
        market,
        tokens: jaipur_core::tokens::Tokens::create_game_tokens(),
        discard: jaipur_core::resources::DiscardPile::new(),
        state: jaipur_core::resources::GameState { is_game_over: false },
    };
    let mut hand = hand;
    execute_take_single_good(&mut table, &mut hand, &sel);
    assert_eq!(hand.goods, vec![GoodType::Leather, GoodType::Leather]);

    // after execution the selection is cleared and classifies as invalid
    let mut cleared = sel;
    cleared.clear();
    assert_eq!(
        validate(TurnState::Take, &cleared, &table.market, &hand),
        MoveValidity::Invalid
    );
}
