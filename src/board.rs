//! The board, its cells and the rules of the game: legality of a move,
//! winning lines and a full board.

use vstd::prelude::*;

verus! {

/// The content of a cell, and also the two sides of the game (`X` and `O`).
#[derive(Copy, Clone, Debug, PartialEq, Eq, Structural)]
pub enum Player {
    Empty,
    X,
    O,
}

/// A side that can make moves: `X` or `O`.
pub open spec fn is_side(p: Player) -> bool {
    p == Player::X || p == Player::O
}

/// The other side. `Empty` is no side; it maps to `X`, the side that opens a game.
pub open spec fn opponent(p: Player) -> Player {
    match p {
        Player::X => Player::O,
        _ => Player::X,
    }
}

impl Player {
    /// The character that shows this cell: `X`, `O`, or a blank.
    pub fn symbol(&self) -> (r: char)
        ensures
            r == match *self {
                Player::X => 'X',
                Player::O => 'O',
                Player::Empty => ' ',
            },
    {
        match self {
            Player::X => 'X',
            Player::O => 'O',
            Player::Empty => ' ',
        }
    }
}

/// Returns the side that moves after `player`.
pub fn swap_player(player: Player) -> (r: Player)
    ensures
        r == opponent(player),
{
    if player == Player::X {
        Player::O
    } else {
        Player::X
    }
}

/// A move to cell `i` is legal when `i` names a cell and that cell is empty.
pub open spec fn is_legal(b: Seq<Player>, i: int) -> bool {
    0 <= i < b.len() && b[i] == Player::Empty
}

/// Whether a mark may be placed at index `i`.
pub fn valid_move(board: &[Player; 9], i: usize) -> (r: bool)
    ensures
        r == is_legal(board@, i as int),
{
    i < 9 && board[i] == Player::Empty
}

/// The eight winning lines as index triples: three rows, three columns and
/// the two diagonals.
pub open spec fn win_line(k: int) -> (int, int, int) {
    if k == 0 {
        (0, 1, 2)
    } else if k == 1 {
        (3, 4, 5)
    } else if k == 2 {
        (6, 7, 8)
    } else if k == 3 {
        (0, 3, 6)
    } else if k == 4 {
        (1, 4, 7)
    } else if k == 5 {
        (2, 5, 8)
    } else if k == 6 {
        (0, 4, 8)
    } else {
        (2, 4, 6)
    }
}

/// Line `k` holds `p` in all three of its cells.
pub open spec fn line_filled(b: Seq<Player>, p: Player, k: int) -> bool {
    let (i, j, l) = win_line(k);
    b[i] == p && b[j] == p && b[l] == p
}

/// `p` has won: one of the eight lines is filled with `p`.
pub open spec fn has_won(b: Seq<Player>, p: Player) -> bool {
    exists|k: int| 0 <= k < 8 && #[trigger] line_filled(b, p, k)
}

/// No cell is empty.
pub open spec fn is_full(b: Seq<Player>) -> bool {
    forall|i: int| 0 <= i < b.len() ==> #[trigger] b[i] != Player::Empty
}

/// The board at the start of a game.
pub open spec fn empty_board() -> Seq<Player> {
    Seq::new(9, |i: int| Player::Empty)
}

/// Returns the cells of winning line `k`.
fn line(k: usize) -> (r: (usize, usize, usize))
    requires
        k < 8,
    ensures
        (r.0 as int, r.1 as int, r.2 as int) == win_line(k as int),
{
    match k {
        0 => (0, 1, 2),
        1 => (3, 4, 5),
        2 => (6, 7, 8),
        3 => (0, 3, 6),
        4 => (1, 4, 7),
        5 => (2, 5, 8),
        6 => (0, 4, 8),
        _ => (2, 4, 6),
    }
}

/// Whether `player` fills one of the eight winning lines.
pub fn check_win(board: &[Player; 9], player: Player) -> (r: bool)
    ensures
        r == has_won(board@, player),
{
    let mut k: usize = 0;
    while k < 8
        invariant
            k <= 8,
            forall|m: int| 0 <= m < k ==> !#[trigger] line_filled(board@, player, m),
        decreases 8 - k,
    {
        let (i, j, l) = line(k);
        if board[i] == player && board[j] == player && board[l] == player {
            assert(line_filled(board@, player, k as int));
            return true;
        }
        k += 1;
    }
    false
}

/// Whether every cell is taken. A full board is a draw only when nobody has
/// won; callers look for a win first.
pub fn check_draw(board: &[Player; 9]) -> (r: bool)
    ensures
        r == is_full(board@),
{
    let mut i: usize = 0;
    while i < 9
        invariant
            i <= 9,
            forall|m: int| 0 <= m < i ==> board@[m] != Player::Empty,
        decreases 9 - i,
    {
        if valid_move(board, i) {
            return false;
        }
        i += 1;
    }
    true
}

/// Places `player` at `i` and returns `player` if that move won the game,
/// `Empty` otherwise.
pub fn turn(board: &mut [Player; 9], player: Player, i: usize) -> (r: Player)
    requires
        is_side(player),
        is_legal(old(board)@, i as int),
    ensures
        final(board)@ == old(board)@.update(i as int, player),
        r == if has_won(final(board)@, player) {
            player
        } else {
            Player::Empty
        },
{
    board[i] = player;
    if check_win(board, player) {
        player
    } else {
        Player::Empty
    }
}

/// What a cell shows on screen: its number from 1 to 9 while it is empty,
/// else the mark on it.
pub fn cell_label(board: &[Player; 9], i: usize) -> (r: char)
    requires
        i < 9,
    ensures
        board@[i as int] == Player::Empty ==> r as u32 == '1' as u32 + i,
        board@[i as int] == Player::X ==> r == 'X',
        board@[i as int] == Player::O ==> r == 'O',
{
    match board[i] {
        Player::Empty => {
            let digits = ['1', '2', '3', '4', '5', '6', '7', '8', '9'];
            digits[i]
        },
        mark => mark.symbol(),
    }
}

/// Nobody has won on an empty board.
pub proof fn lemma_empty_board_has_no_winner(p: Player)
    requires
        is_side(p),
    ensures
        !has_won(empty_board(), p),
{
}

} // verus!
