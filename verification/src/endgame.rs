//! End-of-game scoring: final token tallies, the camel bonus, and the
//! winner.

use vstd::prelude::*;

use crate::tokens::{get_tokens_score, Tokens};

verus! {

/// Extra points for holding strictly more camels than the opponent when
/// the game ends.
pub const CAMEL_BONUS: u64 = 5;

/// Which player, if either, won the finished game.
#[derive(Clone, Copy, Debug, PartialEq, Eq, Structural)]
pub enum GameOutcome {
    PlayerOneWins,
    PlayerTwoWins,
    Tie,
}

/// Both players' final scores: the sum of all token values held, plus the
/// camel bonus for the player holding strictly more camels.
pub fn final_scores(
    tokens_one: &Tokens,
    camels_one: usize,
    tokens_two: &Tokens,
    camels_two: usize,
) -> (r: (u64, u64))
    requires
        tokens_one.spec_total() + CAMEL_BONUS <= u64::MAX,
        tokens_two.spec_total() + CAMEL_BONUS <= u64::MAX,
    ensures
        r.0 == tokens_one.spec_total() + (if camels_one > camels_two {
            CAMEL_BONUS as int
        } else {
            0int
        }),
        r.1 == tokens_two.spec_total() + (if camels_two > camels_one {
            CAMEL_BONUS as int
        } else {
            0int
        }),
{
    let mut score_one = get_tokens_score(tokens_one);
    let mut score_two = get_tokens_score(tokens_two);
    if camels_one > camels_two {
        score_one = score_one + CAMEL_BONUS;
    } else if camels_two > camels_one {
        score_two = score_two + CAMEL_BONUS;
    }
    (score_one, score_two)
}

/// The player with the strictly higher final score wins; equal scores are
/// a tie.
pub fn decide_winner(score_one: u64, score_two: u64) -> (r: GameOutcome)
    ensures
        r == GameOutcome::PlayerOneWins <==> score_one > score_two,
        r == GameOutcome::PlayerTwoWins <==> score_two > score_one,
        r == GameOutcome::Tie <==> score_one == score_two,
{
    if score_one > score_two {
        GameOutcome::PlayerOneWins
    } else if score_two > score_one {
        GameOutcome::PlayerTwoWins
    } else {
        GameOutcome::Tie
    }
}

} // verus!
