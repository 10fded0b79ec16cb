use crate::player::Player;
use std::rc::Rc;
use vstd::arithmetic::div_mod::{
    lemma_div_pos_is_pos, lemma_fundamental_div_mod, lemma_fundamental_div_mod_converse,
    lemma_mod_pos_bound,
};
use vstd::prelude::*;

verus! {

/// One cell of the board: empty, or owned by a player.
#[derive(Debug, PartialEq, Eq)]
pub enum Field {
    EMPTY,
    OWNED(Rc<Player>),
}

impl View for Field {
    /// The sign of the owner, if any.
    type V = Option<char>;

    open spec fn view(&self) -> Option<char> {
        match self {
            Field::EMPTY => None,
            Field::OWNED(p) => Some(p.sign),
        }
    }
}

impl Default for Field {
    fn default() -> (r: Field)
        ensures
            r@ == None::<char>,
    {
        Field::EMPTY
    }
}

/// Relies on `<Rc<Player> as Clone>::clone`: the result points to the same player.
#[verifier::external_body]
pub(crate) fn share_player(p: &Rc<Player>) -> (r: Rc<Player>)
    ensures
        r == *p,
{
    Rc::clone(p)
}

/// A zero-based coordinate `(x, y)`: `x` is the column, `y` the row.
#[derive(Debug, Clone, Copy, PartialEq, Eq, Structural)]
pub struct Point(pub usize, pub usize);

/// Row-major layout: the flat index of `(x, y)` on rows of `row_size` cells.
pub open spec fn coordinate_to_index(x: int, y: int, row_size: int) -> int {
    y * row_size + x
}

/// The coordinate of flat index `i` on rows of `row_size` cells.
pub open spec fn index_to_coordinate(i: int, row_size: int) -> (int, int) {
    (i % row_size, i / row_size)
}

/// Converting a coordinate of the board to its flat index and back gives the
/// coordinate again.
pub proof fn lemma_index_round_trip(x: int, y: int, row_size: int, column_size: int)
    requires
        0 <= x < row_size,
        0 <= y < column_size,
    ensures
        index_to_coordinate(coordinate_to_index(x, y, row_size), row_size) == (x, y),
{
    lemma_fundamental_div_mod_converse(y * row_size + x, row_size, y, x);
}

/// A coordinate of the board has a flat index inside the board.
pub proof fn lemma_index_in_board(x: int, y: int, row_size: int, column_size: int)
    requires
        0 <= x < row_size,
        0 <= y < column_size,
    ensures
        0 <= coordinate_to_index(x, y, row_size) < row_size * column_size,
{
    assert(0 <= y * row_size + x < row_size * column_size) by (nonlinear_arith)
        requires
            0 <= x < row_size,
            0 <= y < column_size,
    ;
}

impl Point {
    pub fn to_index(&self, row_size: usize) -> (r: usize)
        requires
            coordinate_to_index(self.0 as int, self.1 as int, row_size as int) <= usize::MAX,
        ensures
            r == coordinate_to_index(self.0 as int, self.1 as int, row_size as int),
    {
        (self.1 * row_size) + self.0
    }

    pub fn new(x: usize, y: usize) -> (r: Point)
        ensures
            r == Point(x, y),
    {
        Point(x, y)
    }

    pub fn from_index(i: usize, row_size: usize) -> (r: Point)
        requires
            row_size > 0,
        ensures
            (r.0 as int, r.1 as int) == index_to_coordinate(i as int, row_size as int),
    {
        let x = i % row_size;
        let y = i / row_size;
        Self::new(x, y)
    }
}

/// The axis on which a coordinate left the board.
#[derive(Debug, Clone, Copy, PartialEq, Eq, Structural)]
pub enum Axis {
    X,
    Y,
}

/// Why a move was refused.
#[derive(Debug, Clone, Copy, PartialEq, Eq, Structural)]
pub enum MoveError {
    /// The coordinate `given` lies past `max`, the last valid value on `axis`.
    OutOfBounds { axis: Axis, given: usize, max: usize },
    /// The cell already has an owner.
    CellOccupied,
}

/// The four directions in which a winning run is looked for.
#[derive(Debug, Clone, Copy, PartialEq, Eq, Structural)]
pub enum MatchDirection {
    Horizontal,
    Vertical,
    DiagonalRight,
    DiagonalLeft,
}

/// The `c`-th cell of the run that starts at `(x, y)` and goes in direction `dir`.
pub open spec fn run_cell(dir: MatchDirection, x: int, y: int, c: int) -> (int, int) {
    match dir {
        MatchDirection::Horizontal => (x + c, y),
        MatchDirection::Vertical => (x, y + c),
        MatchDirection::DiagonalRight => (x + c, y + c),
        MatchDirection::DiagonalLeft => (x - c, y + c),
    }
}

/// The number of owned cells.
pub open spec fn owned_count(cells: Seq<Option<char>>) -> nat
    decreases cells.len(),
{
    if cells.len() == 0 {
        0
    } else {
        owned_count(cells.drop_last()) + if cells.last() is Some {
            1nat
        } else {
            0nat
        }
    }
}

/// What the board says of the game.
pub enum Outcome {
    Open,
    Tie,
    Won(char),
}

/// The abstract board: its cells in row-major order, by owner sign.
pub struct Board {
    pub cells: Seq<Option<char>>,
    pub row_size: nat,
    pub column_size: nat,
    pub win_count: nat,
}

impl Board {
    pub open spec fn valid(self) -> bool {
        &&& self.row_size > 0
        &&& self.column_size > 0
        &&& self.win_count > 0
        &&& self.cells.len() == self.row_size * self.column_size
    }

    pub open spec fn in_bounds(self, x: int, y: int) -> bool {
        0 <= x < self.row_size && 0 <= y < self.column_size
    }

    pub open spec fn at(self, x: int, y: int) -> Option<char> {
        self.cells[coordinate_to_index(x, y, self.row_size as int)]
    }

    /// The error of a coordinate that lies off the board, if it does.
    pub open spec fn bounds_error(self, p: Point) -> Option<MoveError> {
        if p.0 >= self.row_size {
            Some(
                MoveError::OutOfBounds {
                    axis: Axis::X,
                    given: p.0,
                    max: (self.row_size - 1) as usize,
                },
            )
        } else if p.1 >= self.column_size {
            Some(
                MoveError::OutOfBounds {
                    axis: Axis::Y,
                    given: p.1,
                    max: (self.column_size - 1) as usize,
                },
            )
        } else {
            None
        }
    }

    /// What marking `p` answers.
    pub open spec fn mark_result(self, p: Point) -> Result<(), MoveError> {
        match self.bounds_error(p) {
            Some(e) => Err(e),
            None => if self.at(p.0 as int, p.1 as int) is Some {
                Err(MoveError::CellOccupied)
            } else {
                Ok(())
            },
        }
    }

    /// The board after the player of sign `sign` takes cell `p`.
    pub open spec fn marked(self, p: Point, sign: char) -> Board {
        Board {
            cells: self.cells.update(
                coordinate_to_index(p.0 as int, p.1 as int, self.row_size as int),
                Some(sign),
            ),
            ..self
        }
    }

    /// Whether the whole run from `(x, y)` in direction `dir` lies on the board.
    pub open spec fn run_fits(self, dir: MatchDirection, x: int, y: int) -> bool {
        let end = run_cell(dir, x, y, self.win_count - 1);
        self.in_bounds(x, y) && self.in_bounds(end.0, end.1)
    }

    /// The sign that owns every cell of the run from `(x, y)` in direction `dir`, if one does.
    pub open spec fn run_winner(self, dir: MatchDirection, x: int, y: int) -> Option<char> {
        if self.run_fits(dir, x, y) && self.at(x, y) is Some && (forall|c: int|
            0 <= c < self.win_count ==> #[trigger] self.at(run_cell(dir, x, y, c).0, run_cell(dir, x, y, c).1)
                == self.at(x, y)) {
            self.at(x, y)
        } else {
            None
        }
    }

    /// The first winning run from `(x, y)`, the directions taken in the order
    /// horizontal, vertical, diagonal right, diagonal left.
    pub open spec fn winner_at(self, x: int, y: int) -> Option<char> {
        if self.run_winner(MatchDirection::Horizontal, x, y) is Some {
            self.run_winner(MatchDirection::Horizontal, x, y)
        } else if self.run_winner(MatchDirection::Vertical, x, y) is Some {
            self.run_winner(MatchDirection::Vertical, x, y)
        } else if self.run_winner(MatchDirection::DiagonalRight, x, y) is Some {
            self.run_winner(MatchDirection::DiagonalRight, x, y)
        } else {
            self.run_winner(MatchDirection::DiagonalLeft, x, y)
        }
    }

    /// The first win found from the cells of flat index below `n`, in row-major order.
    pub open spec fn winner_before(self, n: nat) -> Option<char>
        decreases n,
    {
        if n == 0 {
            None
        } else if self.winner_before((n - 1) as nat) is Some {
            self.winner_before((n - 1) as nat)
        } else {
            let c = index_to_coordinate(n - 1, self.row_size as int);
            self.winner_at(c.0, c.1)
        }
    }

    /// Won by the first winning run in scan order; else a tie when every cell
    /// is owned; else open.
    pub open spec fn state(self) -> Outcome {
        match self.winner_before(self.cells.len()) {
            Some(s) => Outcome::Won(s),
            None => if owned_count(self.cells) == self.cells.len() {
                Outcome::Tie
            } else {
                Outcome::Open
            },
        }
    }
}

/// Once a win is found in scan order, scanning further cells finds the same one.
proof fn lemma_first_winner_stays(b: Board, k: nat, m: nat)
    requires
        k <= m,
        b.winner_before(k) is Some,
    ensures
        b.winner_before(m) == b.winner_before(k),
    decreases m - k,
{
    if m > k {
        lemma_first_winner_stays(b, k, (m - 1) as nat);
    }
}

/// The result of a game so far.
#[derive(PartialEq, Debug)]
pub enum GameState {
    TIE,
    OPEN,
    WON(Rc<Player>),
}

impl View for GameState {
    type V = Outcome;

    open spec fn view(&self) -> Outcome {
        match self {
            GameState::TIE => Outcome::Tie,
            GameState::OPEN => Outcome::Open,
            GameState::WON(p) => Outcome::Won(p.sign),
        }
    }
}

/// The board: a grid of `row_size` by `column_size` cells, won by a run of
/// `win_count` cells of one owner.
pub struct GameField {
    fields: Vec<Field>,
    row_size: usize,
    column_size: usize,
    win_count: usize,
}

impl View for GameField {
    type V = Board;

    closed spec fn view(&self) -> Board {
        Board {
            cells: self.fields@.map_values(|f: Field| f@),
            row_size: self.row_size as nat,
            column_size: self.column_size as nat,
            win_count: self.win_count as nat,
        }
    }
}

impl Default for GameField {
    /// A 3 by 3 board won by three in a row.
    fn default() -> (r: GameField)
        ensures
            r.wf(),
            r@.cells == Seq::new(9, |i: int| None::<char>),
            r@.row_size == 3,
            r@.column_size == 3,
            r@.win_count == 3,
    {
        Self::new(3, 3, 3)
    }
}

impl GameField {
    pub open spec fn wf(&self) -> bool {
        self@.valid()
    }

    pub fn new(row_size: usize, column_size: usize, win_count: usize) -> (r: GameField)
        requires
            row_size > 0,
            column_size > 0,
            win_count > 0,
            row_size * column_size <= usize::MAX,
        ensures
            r.wf(),
            r@.cells == Seq::new((row_size * column_size) as nat, |i: int| None::<char>),
            r@.row_size == row_size,
            r@.column_size == column_size,
            r@.win_count == win_count,
    {
        let n = row_size * column_size;
        let mut fields: Vec<Field> = Vec::new();
        let mut i: usize = 0;
        while i < n
            invariant
                i <= n,
                fields@.len() == i,
                forall|j: int| 0 <= j < i ==> (#[trigger] fields@[j])@ is None,
            decreases n - i,
        {
            fields.push(Field::EMPTY);
            i += 1;
        }
        let r = GameField { fields, row_size, column_size, win_count };
        assert(r@.cells =~= Seq::new(n as nat, |i: int| None::<char>));
        r
    }

    pub fn row_size(&self) -> (r: usize)
        ensures
            r == self@.row_size,
    {
        self.row_size
    }

    pub fn column_size(&self) -> (r: usize)
        ensures
            r == self@.column_size,
    {
        self.column_size
    }

    pub fn win_count(&self) -> (r: usize)
        ensures
            r == self@.win_count,
    {
        self.win_count
    }

    /// The cells in row-major order.
    pub fn fields(&self) -> (r: &Vec<Field>)
        ensures
            r@.map_values(|f: Field| f@) == self@.cells,
    {
        &self.fields
    }

    /// The flat index of `point`, which lies on the board.
    fn index_of(&self, point: &Point) -> (r: usize)
        requires
            self.wf(),
            self@.in_bounds(point.0 as int, point.1 as int),
        ensures
            r == coordinate_to_index(point.0 as int, point.1 as int, self@.row_size as int),
            r < self.fields@.len(),
    {
        let n = self.fields.len();
        proof {
            lemma_index_in_board(point.0 as int, point.1 as int, self.row_size as int, self.column_size as int);
            assert(coordinate_to_index(point.0 as int, point.1 as int, self.row_size as int) < n);
        }
        point.to_index(self.row_size)
    }

    /// The sign of the owner of cell `(x, y)`.
    fn sign_at(&self, x: usize, y: usize) -> (r: Option<char>)
        requires
            self.wf(),
            self@.in_bounds(x as int, y as int),
        ensures
            r == self@.at(x as int, y as int),
    {
        match &self.fields[self.index_of(&Point(x, y))] {
            Field::EMPTY => None,
            Field::OWNED(p) => Some(p.sign),
        }
    }

    /// The cell at `point`, or the axis on which `point` leaves the board.
    pub fn by_point(&self, point: &Point) -> (r: Result<&Field, MoveError>)
        requires
            self.wf(),
        ensures
            self@.bounds_error(*point) is Some ==> r == Err::<&Field, MoveError>(
                self@.bounds_error(*point).unwrap(),
            ),
            self@.bounds_error(*point) is None ==> (r matches Ok(f) && f@ == self@.at(
                point.0 as int,
                point.1 as int,
            )),
    {
        let Point(x, y) = *point;
        if x > self.row_size - 1 {
            return Err(MoveError::OutOfBounds { axis: Axis::X, given: x, max: self.row_size - 1 });
        }
        if y > self.column_size - 1 {
            return Err(
                MoveError::OutOfBounds { axis: Axis::Y, given: y, max: self.column_size - 1 },
            );
        }
        Ok(&self.fields[self.index_of(point)])
    }

    /// Gives cell `point` to `player`, unless it lies off the board or is owned.
    pub fn mark(&mut self, player: Rc<Player>, point: Point) -> (r: Result<(), MoveError>)
        requires
            old(self).wf(),
        ensures
            final(self).wf(),
            r == old(self)@.mark_result(point),
            r is Ok ==> final(self)@ == old(self)@.marked(point, player.sign),
            r is Err ==> final(self)@ == old(self)@,
    {
        match self.by_point(&point) {
            Err(e) => {
                return Err(e);
            },
            Ok(Field::OWNED(_)) => {
                return Err(MoveError::CellOccupied);
            },
            Ok(Field::EMPTY) => {},
        }
        let i: usize = self.index_of(&point);
        self.fields.set(i, Field::OWNED(player));
        assert(self@.cells =~= old(self)@.marked(point, player.sign).cells);
        Ok(())
    }

    /// Whether the run of `win_count` cells from `(x, y)` in direction `dir`
    /// lies on the board and has one owner.
    fn check_run(&self, dir: MatchDirection, x: usize, y: usize) -> (r: bool)
        requires
            self.wf(),
            self@.in_bounds(x as int, y as int),
        ensures
            r == self@.run_winner(dir, x as int, y as int) is Some,
    {
        let wc = self.win_count;
        let fits = match dir {
            MatchDirection::Horizontal => wc <= self.row_size - x,
            MatchDirection::Vertical => wc <= self.column_size - y,
            MatchDirection::DiagonalRight => wc <= self.row_size - x && wc <= self.column_size - y,
            MatchDirection::DiagonalLeft => wc - 1 <= x && wc <= self.column_size - y,
        };
        if !fits {
            return false;
        }
        let s = match self.sign_at(x, y) {
            Some(s) => s,
            None => {
                return false;
            },
        };
        let mut c: usize = 0;
        while c < wc
            invariant
                self.wf(),
                wc == self@.win_count,
                self@.run_fits(dir, x as int, y as int),
                self@.at(x as int, y as int) == Some(s),
                0 <= c <= wc,
                forall|k: int|
                    0 <= k < c ==> #[trigger] self@.at(
                        run_cell(dir, x as int, y as int, k).0,
                        run_cell(dir, x as int, y as int, k).1,
                    ) == Some(s),
            decreases wc - c,
        {
            let (cx, cy) = match dir {
                MatchDirection::Horizontal => (x + c, y),
                MatchDirection::Vertical => (x, y + c),
                MatchDirection::DiagonalRight => (x + c, y + c),
                MatchDirection::DiagonalLeft => (x - c, y + c),
            };
            assert((cx as int, cy as int) == run_cell(dir, x as int, y as int, c as int));
            match self.sign_at(cx, cy) {
                Some(t) => {
                    if t != s {
                        assert(self@.at(
                            run_cell(dir, x as int, y as int, c as int).0,
                            run_cell(dir, x as int, y as int, c as int).1,
                        ) != self@.at(x as int, y as int));
                        return false;
                    }
                },
                None => {
                    assert(self@.at(
                        run_cell(dir, x as int, y as int, c as int).0,
                        run_cell(dir, x as int, y as int, c as int).1,
                    ) != self@.at(x as int, y as int));
                    return false;
                },
            }
            c += 1;
        }
        true
    }

    /// The owner of the first winning run from `from`.
    fn inspect(&self, from: &Point) -> (r: Option<Rc<Player>>)
        requires
            self.wf(),
            self@.in_bounds(from.0 as int, from.1 as int),
        ensures
            r is None ==> self@.winner_at(from.0 as int, from.1 as int) is None,
            r matches Some(p) ==> self@.winner_at(from.0 as int, from.1 as int) == Some(p.sign),
    {
        let Point(x, y) = *from;
        let found = self.check_run(MatchDirection::Horizontal, x, y) || self.check_run(
            MatchDirection::Vertical,
            x,
            y,
        ) || self.check_run(MatchDirection::DiagonalRight, x, y) || self.check_run(
            MatchDirection::DiagonalLeft,
            x,
            y,
        );
        if !found {
            return None;
        }
        match &self.fields[self.index_of(from)] {
            Field::OWNED(p) => Some(share_player(p)),
            Field::EMPTY => None,
        }
    }

    /// Won, tie or open, as the board now stands.
    pub fn state(&self) -> (r: GameState)
        requires
            self.wf(),
        ensures
            r@ == self@.state(),
    {
        let n = self.fields.len();
        let mut non_empties: usize = 0;
        let mut y: usize = 0;
        while y < self.column_size
            invariant
                self.wf(),
                n == self@.cells.len(),
                y <= self.column_size,
                non_empties <= y * self.row_size,
                non_empties == owned_count(self@.cells.take(y * self.row_size)),
                self@.winner_before((y * self.row_size) as nat) is None,
            decreases self.column_size - y,
        {
            let mut x: usize = 0;
            while x < self.row_size
                invariant
                    self.wf(),
                    n == self@.cells.len(),
                    y < self.column_size,
                    x <= self.row_size,
                    non_empties <= y * self.row_size + x,
                    non_empties == owned_count(self@.cells.take(y * self.row_size + x)),
                    self@.winner_before((y * self.row_size + x) as nat) is None,
                decreases self.row_size - x,
            {
                let point = Point(x, y);
                let i: usize = self.index_of(&point);
                proof {
                    lemma_index_round_trip(x as int, y as int, self.row_size as int, self.column_size as int);
                    assert(self@.cells.take(i + 1).drop_last() =~= self@.cells.take(i as int));
                }
                match &self.fields[i] {
                    Field::EMPTY => {},
                    _ => non_empties += 1,
                }
                match self.inspect(&point) {
                    None => {},
                    Some(player) => {
                        proof {
                            assert(self@.winner_before((i + 1) as nat) == Some(player.sign));
                            lemma_first_winner_stays(self@, (i + 1) as nat, n as nat);
                        }
                        return GameState::WON(player);
                    },
                }
                x += 1;
            }
            proof {
                assert((y + 1) * self.row_size == y * self.row_size + self.row_size) by (nonlinear_arith);
            }
            y += 1;
        }
        proof {
            assert(self.column_size * self.row_size == self.row_size * self.column_size) by (nonlinear_arith);
            assert(self@.cells.take(n as int) =~= self@.cells);
        }
        if non_empties == n {
            GameState::TIE
        } else {
            GameState::OPEN
        }
    }
}

/// Marking a coordinate off the board is refused as out of bounds, naming
/// the coordinate; `GameField::mark` then leaves the board as it was.
pub proof fn lemma_mark_off_board_refused(b: Board, p: Point)
    requires
        b.valid(),
        !b.in_bounds(p.0 as int, p.1 as int),
    ensures
        b.mark_result(p) matches Err(MoveError::OutOfBounds { axis, given, .. }) && (
        axis == Axis::X ==> given == p.0) && (axis == Axis::Y ==> given == p.1),
{
}

/// Marking a cell that has an owner is refused as occupied; `GameField::mark`
/// then leaves the owner as it was.
pub proof fn lemma_mark_owned_cell_refused(b: Board, p: Point)
    requires
        b.valid(),
        b.in_bounds(p.0 as int, p.1 as int),
        b.at(p.0 as int, p.1 as int) is Some,
    ensures
        b.mark_result(p) == Err::<(), MoveError>(MoveError::CellOccupied),
{
}


/// A cell that comes before `(x, y)` in row-major order lies on no run that
/// starts at `(x, y)`.
proof fn lemma_earlier_cell_off_run(b: Board, dir: MatchDirection, x: int, y: int, i: int)
    requires
        b.valid(),
        b.in_bounds(x, y),
        0 <= i < coordinate_to_index(x, y, b.row_size as int),
    ensures
        b.in_bounds(index_to_coordinate(i, b.row_size as int).0, index_to_coordinate(i, b.row_size as int).1),
        b.at(index_to_coordinate(i, b.row_size as int).0, index_to_coordinate(i, b.row_size as int).1)
            == b.cells[i],
        forall|c: int|
            0 <= c < b.win_count ==> #[trigger] run_cell(dir, x, y, c) != index_to_coordinate(
                i,
                b.row_size as int,
            ),
{
    let rs = b.row_size as int;
    let px = i % rs;
    let py = i / rs;
    lemma_fundamental_div_mod(i, rs);
    lemma_mod_pos_bound(i, rs);
    lemma_div_pos_is_pos(i, rs);
    assert(i == py * rs + px) by (nonlinear_arith)
        requires
            i == rs * (i / rs) + i % rs,
            px == i % rs,
            py == i / rs,
    ;
    assert(py < y || (py == y && px < x)) by (nonlinear_arith)
        requires
            py * rs + px < y * rs + x,
            0 <= px < rs,
            0 <= x < rs,
            py >= 0,
            y >= 0,
    ;
    lemma_index_in_board(x, y, rs, b.column_size as int);
    assert(py < b.column_size) by (nonlinear_arith)
        requires
            py * rs + px < rs * b.column_size,
            0 <= px < rs,
            py >= 0,
    ;
    assert forall|c: int| 0 <= c < b.win_count implies #[trigger] run_cell(dir, x, y, c) != (px, py) by {
        match dir {
            MatchDirection::Horizontal => {},
            MatchDirection::Vertical => {},
            MatchDirection::DiagonalRight => {},
            MatchDirection::DiagonalLeft => {},
        }
    }
}

/// No win is found among the cells before the start of the only run.
proof fn lemma_no_win_before_lone_run(
    b: Board,
    dir: MatchDirection,
    x: int,
    y: int,
    s: char,
    k: nat,
)
    requires
        b.valid(),
        b.run_fits(dir, x, y),
        forall|px: int, py: int|
            b.in_bounds(px, py) && (forall|c: int|
                0 <= c < b.win_count ==> #[trigger] run_cell(dir, x, y, c) != (px, py))
                ==> #[trigger] b.at(px, py) is None,
        k <= coordinate_to_index(x, y, b.row_size as int),
    ensures
        b.winner_before(k) is None,
    decreases k,
{
    if k > 0 {
        lemma_no_win_before_lone_run(b, dir, x, y, s, (k - 1) as nat);
        let p = index_to_coordinate(k - 1, b.row_size as int);
        lemma_earlier_cell_off_run(b, dir, x, y, k - 1);
        assert(b.at(p.0, p.1) is None);
    }
}

/// A board whose only owned cells form one run of `win_count` cells of sign
/// `s`, in any of the four directions, is won by `s`.
pub proof fn lemma_lone_run_wins(b: Board, dir: MatchDirection, x: int, y: int, s: char)
    requires
        b.valid(),
        b.run_fits(dir, x, y),
        forall|c: int|
            0 <= c < b.win_count ==> #[trigger] b.at(run_cell(dir, x, y, c).0, run_cell(dir, x, y, c).1)
                == Some(s),
        forall|px: int, py: int|
            b.in_bounds(px, py) && (forall|c: int|
                0 <= c < b.win_count ==> #[trigger] run_cell(dir, x, y, c) != (px, py))
                ==> #[trigger] b.at(px, py) is None,
    ensures
        b.state() == Outcome::Won(s),
{
    let rs = b.row_size as int;
    let start = coordinate_to_index(x, y, rs);
    lemma_index_in_board(x, y, rs, b.column_size as int);
    lemma_index_round_trip(x, y, rs, b.column_size as int);
    lemma_no_win_before_lone_run(b, dir, x, y, s, start as nat);
    assert(run_cell(dir, x, y, 0) == (x, y));
    assert(b.at(x, y) == Some(s));
    assert(b.run_winner(dir, x, y) == Some(s));
    assert(b.winner_at(x, y) == Some(s));
    assert(b.winner_before((start + 1) as nat) == Some(s));
    lemma_first_winner_stays(b, (start + 1) as nat, b.cells.len());
}

} // verus!
