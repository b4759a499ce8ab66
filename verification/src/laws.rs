//! Game-wide laws proved over the engine's model.

use crate::engine::GameModel;
use crate::engine::Player;
use crate::engine::cell_at;
use crate::engine::initial_model;
use crate::engine::model_after_move;
use crate::engine::move_accepted;
use crate::engine::other_player;
use vstd::prelude::*;

verus! {

/// The model reached by playing `moves` in order from the initial state,
/// each move accepted as `model_after_move` describes.
pub open spec fn play(moves: Seq<(int, int)>) -> GameModel
    decreases moves.len(),
{
    if moves.len() == 0 {
        initial_model()
    } else {
        model_after_move(play(moves.drop_last()), moves.last().0, moves.last().1)
    }
}

/// Whether the `i`-th move of `moves` is legal at the point it is played:
/// on the board, with the game in progress and the target cell empty.
pub open spec fn legal_at(moves: Seq<(int, int)>, i: int) -> bool {
    0 <= moves[i].0 < 3 && 0 <= moves[i].1 < 3 && move_accepted(
        play(moves.take(i)),
        moves[i].0,
        moves[i].1,
    )
}

/// Whether every move of `moves` is legal at the point it is played.
pub open spec fn all_moves_legal(moves: Seq<(int, int)>) -> bool {
    forall|i: int| 0 <= i < moves.len() ==> #[trigger] legal_at(moves, i)
}

/// The player to move after `i` moves of an alternating game: X after an
/// even number, O after an odd one.
pub open spec fn turn_after(i: int) -> Player {
    if i % 2 == 0 {
        Player::X
    } else {
        Player::O
    }
}

/// Along every sequence of legal moves the turn to move alternates strictly
/// between the two players, starting with X: after any prefix of even length
/// X is to move, after any prefix of odd length O is.
pub proof fn lemma_turn_alternates(moves: Seq<(int, int)>)
    requires
        all_moves_legal(moves),
    ensures
        forall|i: int|
            0 <= i <= moves.len() ==> #[trigger] play(moves.take(i)).turn == turn_after(i),
    decreases moves.len(),
{
    if moves.len() == 0 {
        assert forall|i: int|
            0 <= i <= moves.len() implies #[trigger] play(moves.take(i)).turn == turn_after(i) by {
            assert(moves.take(i) =~= moves);
        }
    } else {
        let prefix = moves.drop_last();
        assert forall|i: int| 0 <= i <= prefix.len() implies #[trigger] prefix.take(i)
            == moves.take(i) by {
            assert(prefix.take(i) =~= moves.take(i));
        }
        assert forall|i: int| 0 <= i < prefix.len() implies #[trigger] legal_at(prefix, i) by {
            assert(legal_at(moves, i));
        }
        lemma_turn_alternates(prefix);
        assert forall|i: int|
            0 <= i <= moves.len() implies #[trigger] play(moves.take(i)).turn == turn_after(i) by {
            if i <= prefix.len() {
                assert(play(prefix.take(i)).turn == turn_after(i));
            } else {
                assert(i == moves.len());
                assert(moves.take(i) =~= moves);
                assert(prefix.take(prefix.len() as int) =~= prefix);
                assert(play(prefix).turn == turn_after(i - 1));
                assert(play(moves).turn == other_player(play(prefix).turn));
            }
        }
    }
}

} // verus!
