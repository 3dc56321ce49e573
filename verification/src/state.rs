//! The board state engine: grid data model, turn tracking, move application,
//! and win/draw detection for a 3x3 tic-tac-toe game.

use vstd::prelude::*;
use vstd::string::*;

verus! {

/// Width and height of the (square) board.
pub const BOARD_SIZE: usize = 3;

/// One cell's occupancy state: marked by a player, or still empty.
#[derive(Debug, Clone, Copy, PartialEq, Eq, Structural)]
pub enum TileState {
    X,
    O,
    Empty,
}

/// One of the two participants.
#[derive(Debug, Clone, Copy, PartialEq, Eq, Structural)]
pub enum Player {
    X,
    O,
}

/// The player opposite to `p`.
pub open spec fn spec_opponent(p: Player) -> Player {
    match p {
        Player::X => Player::O,
        Player::O => Player::X,
    }
}

/// The mark a player places on the board.
pub open spec fn tile_for(p: Player) -> TileState {
    match p {
        Player::X => TileState::X,
        Player::O => TileState::O,
    }
}

/// The player occupying a tile, if any.
pub open spec fn player_of(t: TileState) -> Option<Player> {
    match t {
        TileState::X => Some(Player::X),
        TileState::O => Some(Player::O),
        TileState::Empty => None,
    }
}

impl Player {
    /// Returns the other player.
    pub fn opponent(&self) -> (r: Player)
        ensures
            r == spec_opponent(*self),
    {
        match self {
            Player::X => Player::O,
            Player::O => Player::X,
        }
    }

    /// Converts this player into the mark it places.
    pub fn tile(&self) -> (r: TileState)
        ensures
            r == tile_for(*self),
    {
        match self {
            Player::X => TileState::X,
            Player::O => TileState::O,
        }
    }
}

impl TileState {
    /// Reads a tile back as the player occupying it, or `None` when empty.
    pub fn player(&self) -> (r: Option<Player>)
        ensures
            r == player_of(*self),
    {
        match self {
            TileState::X => Some(Player::X),
            TileState::O => Some(Player::O),
            TileState::Empty => None,
        }
    }
}

/// A rejected move or a malformed input line. Every variant is recoverable:
/// the caller reports it and asks the same player again.
#[derive(Debug, Clone, Copy, PartialEq, Eq, Structural)]
pub enum GameError {
    /// The coordinates lie outside the 3x3 grid.
    OutOfBounds(usize, usize),
    /// The addressed cell already holds a mark.
    CellOccupied(usize, usize),
    /// The input line is not two comma-separated non-negative integers.
    InputParseError,
}

/// The full 3x3 grid plus whose turn is next. Tiles are stored row-major,
/// origin at the upper left; cell (x, y) lives at index `x + y * BOARD_SIZE`.
#[derive(Debug, PartialEq)]
pub struct BoardState {
    tiles: Vec<TileState>,
    next: Player,
}

impl BoardState {
    /// The grid contents, row-major.
    pub closed spec fn grid(&self) -> Seq<TileState> {
        self.tiles@
    }

    /// The player whose turn is next.
    pub closed spec fn turn(&self) -> Player {
        self.next
    }

    /// The structural invariant: the grid always holds exactly 9 tiles.
    pub closed spec fn wf(&self) -> bool {
        self.tiles@.len() == 9
    }

    /// A fresh board: all tiles empty, X to move first.
    pub fn new() -> (r: BoardState)
        ensures
            r.wf(),
            r.turn() == Player::X,
            forall|i: int| 0 <= i < 9 ==> r.grid()[i] == TileState::Empty,
    {
        let mut tiles: Vec<TileState> = Vec::new();
        let mut i: usize = 0;
        while i < 9
            invariant
                i <= 9,
                tiles@.len() == i,
                forall|j: int| 0 <= j < i ==> tiles@[j] == TileState::Empty,
            decreases 9 - i,
        {
            tiles.push(TileState::Empty);
            i += 1;
        }
        BoardState { tiles, next: Player::X }
    }

    /// Builds a board from explicit contents, for setting up positions.
    pub fn from_tiles(tiles: Vec<TileState>, next: Player) -> (r: BoardState)
        requires
            tiles@.len() == 9,
        ensures
            r.wf(),
            r.grid() == tiles@,
            r.turn() == next,
    {
        BoardState { tiles, next }
    }

    /// Returns whose turn it is.
    pub fn next(&self) -> (r: Player)
        ensures
            r == self.turn(),
    {
        self.next
    }

    /// The tile at column `x`, row `y`.
    pub fn get(&self, x: usize, y: usize) -> (r: TileState)
        requires
            self.wf(),
            x < 3,
            y < 3,
        ensures
            r == self.grid()[x + 3 * y],
    {
        self.tiles[x + y * BOARD_SIZE]
    }

    /// Overwrites the tile at column `x`, row `y`.
    fn set(&mut self, x: usize, y: usize, tile: TileState)
        requires
            old(self).wf(),
            x < 3,
            y < 3,
        ensures
            final(self).wf(),
            final(self).grid() == old(self).grid().update(x + 3 * y, tile),
            final(self).turn() == old(self).turn(),
    {
        self.tiles.set(x + y * BOARD_SIZE, tile);
    }

    /// Attempts to place the current player's mark at `(x, y)` (0-indexed,
    /// x = column, y = row). Coordinates at or beyond the edge are rejected
    /// as `OutOfBounds`; a cell already holding a mark is rejected as
    /// `CellOccupied`; either rejection leaves the board untouched. On
    /// success the mark is placed and the turn passes to the opponent.
    /// This is the only mutator of board state.
    pub fn play(&mut self, coords: (usize, usize)) -> (r: Result<(), GameError>)
        requires
            old(self).wf(),
        ensures
            final(self).wf(),
            coords.0 >= 3 || coords.1 >= 3 ==> {
                &&& r == Err::<(), GameError>(GameError::OutOfBounds(coords.0, coords.1))
                &&& final(self).grid() == old(self).grid()
                &&& final(self).turn() == old(self).turn()
            },
            coords.0 < 3 && coords.1 < 3
                && old(self).grid()[coords.0 + 3 * coords.1] != TileState::Empty ==> {
                &&& r == Err::<(), GameError>(GameError::CellOccupied(coords.0, coords.1))
                &&& final(self).grid() == old(self).grid()
                &&& final(self).turn() == old(self).turn()
            },
            coords.0 < 3 && coords.1 < 3
                && old(self).grid()[coords.0 + 3 * coords.1] == TileState::Empty ==> {
                &&& r == Ok::<(), GameError>(())
                &&& final(self).grid() == old(self).grid().update(
                    coords.0 + 3 * coords.1,
                    tile_for(old(self).turn()),
                )
                &&& final(self).turn() == spec_opponent(old(self).turn())
            },
            r is Ok <==> coords.0 < 3 && coords.1 < 3
                && old(self).grid()[coords.0 + 3 * coords.1] == TileState::Empty,
    {
        let (x, y) = coords;
        if x >= BOARD_SIZE || y >= BOARD_SIZE {
            return Err(GameError::OutOfBounds(x, y));
        }
        match self.get(x, y) {
            TileState::Empty => {
                let tile = self.next.tile();
                self.set(x, y, tile);
                self.next = self.next.opponent();
                Ok(())
            },
            _ => Err(GameError::CellOccupied(x, y)),
        }
    }

    /// True iff every tile is occupied. This deliberately ignores whether a
    /// line has been won: callers must consult `won()` first, since a full
    /// board containing a won line is also "drawn" by this definition.
    pub fn drawn(&self) -> (r: bool)
        requires
            self.wf(),
        ensures
            r == spec_drawn(self.grid()),
    {
        let mut i: usize = 0;
        while i < 9
            invariant
                self.wf(),
                i <= 9,
                forall|j: int| 0 <= j < i ==> self.grid()[j] != TileState::Empty,
            decreases 9 - i,
        {
            match self.tiles[i] {
                TileState::Empty => {
                    return false;
                },
                _ => {},
            }
            i += 1;
        }
        true
    }
}

/// Row `y` of the grid, left to right.
pub open spec fn row_at(t: Seq<TileState>, y: int) -> Seq<TileState> {
    seq![t[3 * y], t[3 * y + 1], t[3 * y + 2]]
}

/// Column `x` of the grid, top to bottom.
pub open spec fn col_at(t: Seq<TileState>, x: int) -> Seq<TileState> {
    seq![t[x], t[x + 3], t[x + 6]]
}

/// A diagonal of the grid: the anti-diagonal (upper right to lower left)
/// when `sinister` holds, else the primary diagonal (upper left down).
pub open spec fn diag_at(t: Seq<TileState>, sinister: bool) -> Seq<TileState> {
    if sinister {
        seq![t[2], t[4], t[6]]
    } else {
        seq![t[0], t[4], t[8]]
    }
}

/// The 8 candidate lines in scan order: rows 0-2, columns 0-2, primary
/// diagonal, anti-diagonal.
pub open spec fn line_at(t: Seq<TileState>, k: int) -> Seq<TileState> {
    if k < 3 {
        row_at(t, k)
    } else if k < 6 {
        col_at(t, k - 3)
    } else {
        diag_at(t, k == 7)
    }
}

/// The common value of a sequence: `Some` iff the sequence is non-empty and
/// every element equals the first.
pub open spec fn all_eq_spec(s: Seq<TileState>) -> Option<TileState> {
    if s.len() > 0 && (forall|i: int| 0 <= i < s.len() ==> #[trigger] s[i] == s[0]) {
        Some(s[0])
    } else {
        None
    }
}

/// The player winning line `k`, if any. A line of three empties has a
/// common value but no occupying player, so it yields `None`.
pub open spec fn line_winner(t: Seq<TileState>, k: int) -> Option<Player> {
    match all_eq_spec(line_at(t, k)) {
        Some(tile) => player_of(tile),
        None => None,
    }
}

/// The first winner among lines `k..8`, in scan order.
pub open spec fn won_from(t: Seq<TileState>, k: int) -> Option<Player>
    decreases 8 - k,
{
    if k >= 8 {
        None
    } else {
        match line_winner(t, k) {
            Some(p) => Some(p),
            None => won_from(t, k + 1),
        }
    }
}

/// The outcome of the whole-board scan: the first winner in line order.
pub open spec fn spec_won(t: Seq<TileState>) -> Option<Player> {
    won_from(t, 0)
}

/// While no line before `k` has a winner, the scan from 0 and the scan
/// from `k` agree.
pub proof fn lemma_won_from_prefix(t: Seq<TileState>, k: int)
    requires
        0 <= k <= 8,
        forall|j: int| 0 <= j < k ==> line_winner(t, j) is None,
    ensures
        won_from(t, 0) == won_from(t, k),
    decreases k,
{
    if k > 0 {
        lemma_won_from_prefix(t, k - 1);
    }
}

/// If `tiles` is nonempty and all its items are equal, returns an item.
fn all_eq(tiles: &Vec<TileState>) -> (r: Option<TileState>)
    ensures
        r == all_eq_spec(tiles@),
{
    if tiles.len() == 0 {
        return None;
    }
    let first = tiles[0];
    let mut i: usize = 1;
    while i < tiles.len()
        invariant
            tiles@.len() > 0,
            1 <= i <= tiles@.len(),
            first == tiles@[0],
            forall|j: int| 0 <= j < i ==> #[trigger] tiles@[j] == tiles@[0],
        decreases tiles@.len() - i,
    {
        if tiles[i] != first {
            return None;
        }
        i += 1;
    }
    Some(first)
}

impl BoardState {
    /// Row `row` of the grid, left to right.
    pub fn iter_row(&self, row: usize) -> (r: Vec<TileState>)
        requires
            self.wf(),
            row < 3,
        ensures
            r@ == row_at(self.grid(), row as int),
    {
        let mut r: Vec<TileState> = Vec::new();
        r.push(self.get(0, row));
        r.push(self.get(1, row));
        r.push(self.get(2, row));
        proof {
            assert(r@ =~= row_at(self.grid(), row as int));
        }
        r
    }

    /// Column `col` of the grid, top to bottom.
    pub fn iter_col(&self, col: usize) -> (r: Vec<TileState>)
        requires
            self.wf(),
            col < 3,
        ensures
            r@ == col_at(self.grid(), col as int),
    {
        let mut r: Vec<TileState> = Vec::new();
        r.push(self.get(col, 0));
        r.push(self.get(col, 1));
        r.push(self.get(col, 2));
        proof {
            assert(r@ =~= col_at(self.grid(), col as int));
        }
        r
    }

    /// A diagonal: the anti-diagonal when `sinister` holds, else the
    /// primary one.
    pub fn iter_diag(&self, sinister: bool) -> (r: Vec<TileState>)
        requires
            self.wf(),
        ensures
            r@ == diag_at(self.grid(), sinister),
    {
        let mut r: Vec<TileState> = Vec::new();
        if sinister {
            r.push(self.get(2, 0));
            r.push(self.get(1, 1));
            r.push(self.get(0, 2));
        } else {
            r.push(self.get(0, 0));
            r.push(self.get(1, 1));
            r.push(self.get(2, 2));
        }
        proof {
            assert(r@ =~= diag_at(self.grid(), sinister));
        }
        r
    }

    /// Scans the 8 lines (rows top to bottom, then columns left to right,
    /// then the primary diagonal, then the anti-diagonal) and returns the
    /// first player owning a full line, or `None` when no line is won.
    pub fn won(&self) -> (r: Option<Player>)
        requires
            self.wf(),
        ensures
            r == spec_won(self.grid()),
    {
        let mut k: usize = 0;
        while k < 8
            invariant
                self.wf(),
                k <= 8,
                forall|j: int| 0 <= j < k ==> line_winner(self.grid(), j) is None,
            decreases 8 - k,
        {
            let line: Vec<TileState> = if k < 3 {
                self.iter_row(k)
            } else if k < 6 {
                self.iter_col(k - 3)
            } else {
                self.iter_diag(k == 7)
            };
            assert(line@ == line_at(self.grid(), k as int));
            match all_eq(&line) {
                Some(tile) => match tile.player() {
                    Some(p) => {
                        proof {
                            lemma_won_from_prefix(self.grid(), k as int);
                        }
                        return Some(p);
                    },
                    None => {},
                },
                None => {},
            }
            k += 1;
        }
        proof {
            lemma_won_from_prefix(self.grid(), 8);
        }
        None
    }
}

/// Every line from `k` on is unwon when the scan from `k` finds nothing.
proof fn lemma_won_from_none(t: Seq<TileState>, k: int)
    requires
        0 <= k <= 8,
        won_from(t, k) is None,
    ensures
        forall|j: int| k <= j < 8 ==> line_winner(t, j) is None,
    decreases 8 - k,
{
    if k < 8 {
        lemma_won_from_none(t, k + 1);
    }
}

/// The scan result agrees with the lines themselves: it finds no winner
/// exactly when no line has one, and a found winner always owns some line.
pub proof fn lemma_won_matches_lines(t: Seq<TileState>)
    ensures
        spec_won(t) is None <==> (forall|k: int| 0 <= k < 8 ==> line_winner(t, k) is None),
        spec_won(t) matches Some(p) ==> exists|k: int|
            0 <= k < 8 && line_winner(t, k) == Some(p),
{
    if spec_won(t) is None {
        lemma_won_from_none(t, 0);
    } else {
        lemma_won_some_has_line(t, 0);
    }
    if forall|k: int| 0 <= k < 8 ==> line_winner(t, k) is None {
        lemma_won_from_prefix(t, 8);
    }
}

/// A winner reported by the scan from `k` owns one of the lines `k..8`.
proof fn lemma_won_some_has_line(t: Seq<TileState>, k: int)
    requires
        0 <= k <= 8,
        won_from(t, k) is Some,
    ensures
        exists|j: int| k <= j < 8 && line_winner(t, j) == won_from(t, k),
    decreases 8 - k,
{
    if line_winner(t, k) is None {
        lemma_won_some_has_line(t, k + 1);
    }
}

/// A board counts as drawn when no tile is empty, whatever `won()` says.
pub open spec fn spec_drawn(t: Seq<TileState>) -> bool {
    forall|i: int| 0 <= i < t.len() ==> t[i] != TileState::Empty
}

/// Applying `opponent` twice returns to the same player.
pub proof fn lemma_opponent_involution(p: Player)
    ensures
        spec_opponent(spec_opponent(p)) == p,
{
}

/// A freshly constructed board has no winner: every line is three empties,
/// whose common value maps to no player.
pub proof fn lemma_fresh_board_not_won(t: Seq<TileState>)
    requires
        t.len() == 9,
        forall|i: int| 0 <= i < 9 ==> #[trigger] t[i] == TileState::Empty,
    ensures
        spec_won(t) is None,
{
    assert forall|k: int| 0 <= k < 8 implies line_winner(t, k) is None by {
        assert(line_at(t, k)[0] == TileState::Empty);
        assert(all_eq_spec(line_at(t, k)) == Some(TileState::Empty));
    }
    lemma_won_from_prefix(t, 8);
}

/// A successful move changes exactly one tile, from empty to the moving
/// player's mark; every other tile keeps its state.
pub proof fn lemma_play_changes_one_tile(
    before: Seq<TileState>,
    after: Seq<TileState>,
    x: int,
    y: int,
    p: Player,
)
    requires
        before.len() == 9,
        0 <= x < 3,
        0 <= y < 3,
        before[x + 3 * y] == TileState::Empty,
        after == before.update(x + 3 * y, tile_for(p)),
    ensures
        after[x + 3 * y] == tile_for(p),
        after[x + 3 * y] != before[x + 3 * y],
        forall|j: int| 0 <= j < 9 && j != x + 3 * y ==> after[j] == before[j],
{
}

/// The character rendered for one tile.
pub open spec fn tile_char(t: TileState) -> char {
    match t {
        TileState::X => 'X',
        TileState::O => 'O',
        TileState::Empty => ' ',
    }
}

/// The character rendered for a player's name.
pub open spec fn player_char(p: Player) -> char {
    match p {
        Player::X => 'X',
        Player::O => 'O',
    }
}

/// The rendered text of row `y`: its tiles separated by `|`.
pub open spec fn row_text(t: Seq<TileState>, y: int) -> Seq<char> {
    seq![tile_char(t[3 * y]), '|', tile_char(t[3 * y + 1]), '|', tile_char(t[3 * y + 2])]
}

/// The separator drawn between adjacent rows.
pub open spec fn row_sep() -> Seq<char> {
    seq!['\n', '-', '+', '-', '+', '-', '\n']
}

/// The rendered text of a whole board: the three rows joined by the
/// separator line, with no leading or trailing separator or newline.
pub open spec fn board_text(t: Seq<TileState>) -> Seq<char> {
    row_text(t, 0) + row_sep() + row_text(t, 1) + row_sep() + row_text(t, 2)
}

impl TileState {
    /// The one-character text of this tile: `X`, `O`, or a space.
    pub fn render(&self) -> (r: String)
        ensures
            r@ == seq![tile_char(*self)],
    {
        proof {
            reveal_strlit("X");
            reveal_strlit("O");
            reveal_strlit(" ");
        }
        let r = match self {
            TileState::X => String::from_str("X"),
            TileState::O => String::from_str("O"),
            TileState::Empty => String::from_str(" "),
        };
        proof {
            assert(r@ =~= seq![tile_char(*self)]);
        }
        r
    }
}

impl Player {
    /// The one-character name of this player: `X` or `O`.
    pub fn render(&self) -> (r: String)
        ensures
            r@ == seq![player_char(*self)],
    {
        proof {
            reveal_strlit("X");
            reveal_strlit("O");
        }
        let r = match self {
            Player::X => String::from_str("X"),
            Player::O => String::from_str("O"),
        };
        proof {
            assert(r@ =~= seq![player_char(*self)]);
        }
        r
    }
}

impl BoardState {
    /// The rendered text of row `y`.
    fn render_row(&self, y: usize) -> (r: String)
        requires
            self.wf(),
            y < 3,
        ensures
            r@ == row_text(self.grid(), y as int),
    {
        proof {
            reveal_strlit("|");
        }
        let mut r = self.get(0, y).render();
        r.append("|");
        let t1 = self.get(1, y).render();
        r.append(t1.as_str());
        r.append("|");
        let t2 = self.get(2, y).render();
        r.append(t2.as_str());
        proof {
            assert(r@ =~= row_text(self.grid(), y as int));
        }
        r
    }

    /// Renders the whole board as text: tiles separated by `|` within a
    /// row, adjacent rows separated by a `-+-+-` line, and no trailing
    /// newline after the final row.
    pub fn render(&self) -> (r: String)
        requires
            self.wf(),
        ensures
            r@ == board_text(self.grid()),
    {
        proof {
            reveal_strlit("\n-+-+-\n");
        }
        let mut r = self.render_row(0);
        r.append("\n-+-+-\n");
        let r1 = self.render_row(1);
        r.append(r1.as_str());
        r.append("\n-+-+-\n");
        let r2 = self.render_row(2);
        r.append(r2.as_str());
        proof {
            assert(r@ =~= board_text(self.grid()));
        }
        r
    }
}

} // verus!
