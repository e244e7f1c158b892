use jaipur_core::card::{CardType, GoodType};
use jaipur_core::endgame::{decide_winner, final_scores, GameOutcome};
use jaipur_core::tokens::{bonus_for_sale_size, get_tokens_score, BonusType, Tokens};

#[test]
fn high_value_classification() {
    assert!(GoodType::Diamond.is_high_value());
    assert!(GoodType::Gold.is_high_value());
    assert!(GoodType::Silver.is_high_value());
    assert!(!GoodType::Cloth.is_high_value());
    assert!(!GoodType::Spice.is_high_value());
    assert!(!GoodType::Leather.is_high_value());
}

#[test]
fn card_textures_name_their_faces() {
    assert_eq!(CardType::Camel.get_card_texture(), "textures/card/camel.png");
    assert_eq!(
        CardType::Good(GoodType::Diamond).get_card_texture(),
        "textures/card/diamond.png"
    );
    assert_eq!(GoodType::Leather.get_card_texture(), "textures/card/leather.png");
}

#[test]
fn a_good_card_yields_its_good_type() {
    assert_eq!(CardType::Good(GoodType::Spice).into_good_type(), GoodType::Spice);
}

#[test]
fn game_tokens_are_predealt_in_ascending_value_order() {
    let t = Tokens::create_game_tokens();
    assert_eq!(t.goods[0], vec![5, 5, 5, 7, 7]);
    assert_eq!(t.goods[1], vec![5, 5, 5, 6, 6]);
    assert_eq!(t.goods[2], vec![5, 5, 5, 5, 5]);
    assert_eq!(t.goods[3], vec![1, 1, 2, 2, 3, 3, 5]);
    assert_eq!(t.goods[4], vec![1, 1, 2, 2, 3, 3, 5]);
    assert_eq!(t.goods[5], vec![1, 1, 1, 1, 1, 1, 2, 3, 4]);
}

#[test]
fn bonus_stacks_are_shuffles_of_the_fixed_sets() {
    let t = Tokens::create_game_tokens();
    let mut three = t.bonus[0].clone();
    three.sort_unstable();
    assert_eq!(three, vec![1, 1, 2, 2, 2, 3, 3]);
    let mut four = t.bonus[1].clone();
    four.sort_unstable();
    assert_eq!(four, vec![4, 4, 5, 5, 6, 6]);
    let mut five = t.bonus[2].clone();
    five.sort_unstable();
    assert_eq!(five, vec![8, 8, 9, 10, 10]);
}

#[test]
fn popping_good_tokens_yields_the_best_remaining_first() {
    let mut t = Tokens::create_game_tokens();
    assert_eq!(t.pop_good_token(GoodType::Diamond), Some(7));
    assert_eq!(t.pop_good_token(GoodType::Diamond), Some(7));
    assert_eq!(t.pop_good_token(GoodType::Diamond), Some(5));
    assert_eq!(t.pop_good_token(GoodType::Diamond), Some(5));
    assert_eq!(t.pop_good_token(GoodType::Diamond), Some(5));
    assert_eq!(t.pop_good_token(GoodType::Diamond), None);
    // the other stacks are untouched
    assert_eq!(t.goods[1].len(), 5);
}

#[test]
fn bonus_tiers_by_sale_size() {
    assert_eq!(bonus_for_sale_size(1), None);
    assert_eq!(bonus_for_sale_size(2), None);
    assert_eq!(bonus_for_sale_size(3), Some(BonusType::Three));
    assert_eq!(bonus_for_sale_size(4), Some(BonusType::Four));
    assert_eq!(bonus_for_sale_size(5), Some(BonusType::Five));
    assert_eq!(bonus_for_sale_size(9), Some(BonusType::Five));
}

#[test]
fn token_score_sums_every_stack() {
    let mut t = Tokens::create_empty();
    assert_eq!(get_tokens_score(&t), 0);
    t.push_good_token(GoodType::Leather, 4);
    t.push_good_token(GoodType::Diamond, 7);
    t.push_bonus_token(BonusType::Five, 10);
    assert_eq!(get_tokens_score(&t), 21);
}

#[test]
fn full_bank_score_is_the_whole_pool() {
    let t = Tokens::create_game_tokens();
    // goods: 29 + 27 + 25 + 17 + 17 + 15; bonuses: 14 + 30 + 45
    assert_eq!(get_tokens_score(&t), 130 + 89);
}

#[test]
fn camel_bonus_goes_to_the_larger_herd() {
    let mut one = Tokens::create_empty();
    one.push_good_token(GoodType::Leather, 10);
    let mut two = Tokens::create_empty();
    two.push_good_token(GoodType::Leather, 12);
    let (s1, s2) = final_scores(&one, 4, &two, 1);
    assert_eq!((s1, s2), (15, 12));
    let (s1, s2) = final_scores(&one, 1, &two, 4);
    assert_eq!((s1, s2), (10, 17));
    let (s1, s2) = final_scores(&one, 2, &two, 2);
    assert_eq!((s1, s2), (10, 12));
}

#[test]
fn winner_is_decided_by_strictly_higher_score() {
    assert_eq!(decide_winner(10, 7), GameOutcome::PlayerOneWins);
    assert_eq!(decide_winner(7, 10), GameOutcome::PlayerTwoWins);
    assert_eq!(decide_winner(9, 9), GameOutcome::Tie);
}
