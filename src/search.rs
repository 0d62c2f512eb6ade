//! Exhaustive minimax search over the game tree.

use vstd::prelude::*;
use crate::board::{
    check_draw, check_win, has_won, is_full, is_legal, is_side, opponent, swap_player, valid_move,
    Player,
};

verus! {

/// The number of empty cells; it drops by one with every move.
pub open spec fn empties(b: Seq<Player>) -> nat
    decreases b.len(),
{
    if b.len() == 0 {
        0
    } else {
        empties(b.drop_last()) + if b.last() == Player::Empty {
            1nat
        } else {
            0nat
        }
    }
}

/// Filling an empty cell leaves one empty cell fewer.
pub proof fn lemma_move_fills_one(b: Seq<Player>, i: int, p: Player)
    requires
        is_legal(b, i),
        p != Player::Empty,
    ensures
        empties(b.update(i, p)) + 1 == empties(b),
    decreases b.len(),
{
    let u = b.update(i, p);
    if i == b.len() - 1 {
        assert(u.drop_last() =~= b.drop_last());
    } else {
        assert(u.drop_last() =~= b.drop_last().update(i, p));
        lemma_move_fills_one(b.drop_last(), i, p);
    }
}

/// The value of the position for the searching side, with `p` to move:
/// 1 when the searching side wins under best play from both sides, -1 when
/// it loses, 0 for a draw. `maximize` says whether `p` is the searching side.
pub open spec fn minimax_score(maximize: bool, b: Seq<Player>, p: Player) -> int
    decreases empties(b), 11nat,
{
    if has_won(b, p) {
        if maximize {
            1
        } else {
            -1
        }
    } else if has_won(b, opponent(p)) {
        if maximize {
            -1
        } else {
            1
        }
    } else if is_full(b) {
        0
    } else {
        best_below(maximize, b, p, 9)
    }
}

/// The score of the move of `p` to cell `i`, as seen by the side that
/// searches; the opponent answers.
pub open spec fn move_score(maximize: bool, b: Seq<Player>, p: Player, i: int) -> int
    decreases empties(b), 0nat,
{
    if is_legal(b, i) && is_side(p) {
        proof {
            lemma_move_fills_one(b, i, p);
        }
        minimax_score(!maximize, b.update(i, p), opponent(p))
    } else {
        0
    }
}

/// The best score over the legal moves at cells below `k`: the largest when
/// `maximize`, else the smallest; `i32::MIN` or `i32::MAX` when there is none.
pub open spec fn best_below(maximize: bool, b: Seq<Player>, p: Player, k: int) -> int
    decreases empties(b), k + 1,
{
    if k <= 0 {
        if maximize {
            i32::MIN as int
        } else {
            i32::MAX as int
        }
    } else {
        let rest = best_below(maximize, b, p, k - 1);
        if is_legal(b, k - 1) {
            let s = move_score(maximize, b, p, k - 1);
            if maximize {
                if rest < s {
                    s
                } else {
                    rest
                }
            } else {
                if rest > s {
                    s
                } else {
                    rest
                }
            }
        } else {
            rest
        }
    }
}

/// Scores the position for the searching side with `player` to move, by
/// trying every legal move in turn and undoing it afterwards. The board is
/// left as it was found.
pub fn minimax(maximize: bool, board: &mut [Player; 9], player: Player) -> (r: i32)
    requires
        is_side(player),
    ensures
        final(board)@ == old(board)@,
        r == minimax_score(maximize, old(board)@, player),
    decreases empties(old(board)@),
{
    if check_win(board, player) {
        return if maximize {
            1
        } else {
            -1
        };
    }
    if check_win(board, swap_player(player)) {
        return if maximize {
            -1
        } else {
            1
        };
    }
    if check_draw(board) {
        return 0;
    }
    let ghost b = board@;
    let mut score: i32 = if maximize {
        i32::MIN
    } else {
        i32::MAX
    };
    let mut i: usize = 0;
    while i < 9
        invariant
            i <= 9,
            is_side(player),
            board@ == b,
            b == old(board)@,
            b.len() == 9,
            score == best_below(maximize, b, player, i as int),
        decreases 9 - i,
    {
        if valid_move(board, i) {
            board[i] = player;
            proof {
                lemma_move_fills_one(b, i as int, player);
            }
            let temp = minimax(!maximize, board, swap_player(player));
            board[i] = Player::Empty;
            assert(board@ =~= b);
            assert(temp == move_score(maximize, b, player, i as int));
            if maximize {
                if score < temp {
                    score = temp;
                }
            } else {
                if score > temp {
                    score = temp;
                }
            }
        }
        i += 1;
    }
    score
}

/// A position's score lies in -1..=1.
pub proof fn lemma_score_range(maximize: bool, b: Seq<Player>, p: Player)
    requires
        b.len() == 9,
        is_side(p),
    ensures
        -1 <= minimax_score(maximize, b, p) <= 1,
    decreases empties(b), 11nat,
{
    if !has_won(b, p) && !has_won(b, opponent(p)) && !is_full(b) {
        let i = choose|i: int| 0 <= i < b.len() && b[i] == Player::Empty;
        assert(is_legal(b, i));
        lemma_best_below_range(maximize, b, p, 9);
    }
}

/// Once a legal move lies below `k`, the best score below `k` lies in -1..=1.
pub proof fn lemma_best_below_range(maximize: bool, b: Seq<Player>, p: Player, k: int)
    requires
        b.len() == 9,
        is_side(p),
        0 <= k <= 9,
    ensures
        (exists|i: int| 0 <= i < k && is_legal(b, i)) ==> -1 <= best_below(maximize, b, p, k) <= 1,
        !(exists|i: int| 0 <= i < k && is_legal(b, i)) ==> best_below(maximize, b, p, k) == (
        if maximize {
            i32::MIN as int
        } else {
            i32::MAX as int
        }),
    decreases empties(b), k + 1,
{
    if k > 0 {
        lemma_best_below_range(maximize, b, p, k - 1);
        if is_legal(b, k - 1) {
            lemma_move_fills_one(b, k - 1, p);
            lemma_score_range(!maximize, b.update(k - 1, p), opponent(p));
            assert(-1 <= move_score(maximize, b, p, k - 1) <= 1);
        } else {
            if exists|i: int| 0 <= i < k && is_legal(b, i) {
                let i = choose|i: int| 0 <= i < k && is_legal(b, i);
                assert(i < k - 1);
                assert(-1 <= best_below(maximize, b, p, k - 1) <= 1);
            }
        }
    }
}

/// `r` is the move that search picks for `p`: a legal cell whose score is the
/// highest of all legal moves, and the first such cell in index order.
pub open spec fn is_best_move(b: Seq<Player>, p: Player, r: int) -> bool {
    &&& is_legal(b, r)
    &&& forall|i: int| #[trigger]
        is_legal(b, i) ==> move_score(true, b, p, i) <= move_score(true, b, p, r)
    &&& forall|i: int|
        0 <= i < r && #[trigger] is_legal(b, i) ==> move_score(true, b, p, i) < move_score(
            true,
            b,
            p,
            r,
        )
}

/// Picks an optimal move for `player`: the first legal cell, in index
/// order, with the highest minimax score.
pub fn best_move(board: &[Player; 9], player: Player) -> (r: usize)
    requires
        is_side(player),
        !is_full(board@),
    ensures
        is_legal(board@, r as int),
        is_best_move(board@, player, r as int),
{
    let ghost b = board@;
    let mut simulated_board = *board;
    let mut score: i32 = i32::MIN;
    let mut best: usize = 0;
    let mut i: usize = 0;
    while i < 9
        invariant
            i <= 9,
            is_side(player),
            simulated_board@ == b,
            b.len() == 9,
            !(exists|j: int| 0 <= j < i && is_legal(b, j)) ==> score == i32::MIN,
            (exists|j: int| 0 <= j < i && is_legal(b, j)) ==> {
                &&& best < i
                &&& is_legal(b, best as int)
                &&& score == move_score(true, b, player, best as int)
                &&& forall|j: int|
                    0 <= j < i && #[trigger] is_legal(b, j) ==> move_score(true, b, player, j)
                        <= score
                &&& forall|j: int|
                    0 <= j < best && #[trigger] is_legal(b, j) ==> move_score(true, b, player, j)
                        < score
            },
        decreases 9 - i,
    {
        if valid_move(&simulated_board, i) {
            simulated_board[i] = player;
            let temp: i32 = minimax(false, &mut simulated_board, swap_player(player));
            simulated_board[i] = Player::Empty;
            assert(simulated_board@ =~= b);
            proof {
                lemma_move_fills_one(b, i as int, player);
                lemma_score_range(false, b.update(i as int, player), opponent(player));
            }
            assert(temp == move_score(true, b, player, i as int));
            if score < temp {
                score = temp;
                best = i;
            }
        }
        i += 1;
    }
    proof {
        let j = choose|j: int| 0 <= j < b.len() && b[j] == Player::Empty;
        assert(is_legal(b, j));
    }
    best
}

/// Search is deterministic: on a given board and side, only one cell meets
/// the contract of `best_move`, so every call returns the same index.
pub proof fn lemma_best_move_unique(b: Seq<Player>, p: Player, r1: int, r2: int)
    requires
        is_best_move(b, p, r1),
        is_best_move(b, p, r2),
    ensures
        r1 == r2,
{
    if r1 < r2 {
        assert(is_legal(b, r1));
    } else if r2 < r1 {
        assert(is_legal(b, r2));
    }
}

} // verus!
