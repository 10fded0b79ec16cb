use crate::gamefield::{
    index_to_coordinate, share_player, Board, GameField, GameState, MoveError, Point,
};
use crate::player::Player;
use std::rc::Rc;
use vstd::arithmetic::div_mod::lemma_mod_self_0;
use vstd::arithmetic::div_mod::lemma_small_mod;
use vstd::prelude::*;

verus! {

/// The abstract game: the roster in turn order, the board, whose turn it is,
/// and whether the game was quit.
pub struct GameView {
    pub players: Seq<Player>,
    pub board: Board,
    pub turn: nat,
    pub finished: bool,
}

impl GameView {
    /// The sign of the player whose turn it is.
    pub open spec fn current_sign(self) -> char {
        self.players[self.turn as int].sign
    }

    /// The game after the current player took cell `p` and the turn passed on.
    pub open spec fn marked(self, p: Point) -> GameView {
        GameView {
            board: self.board.marked(p, self.current_sign()),
            turn: ((self.turn + 1) as int % (self.players.len() as int)) as nat,
            ..self
        }
    }
}

/// The coordinate of flat index `i` on rows of `row_size` cells.
pub open spec fn point_of_index(i: int, row_size: int) -> Point {
    Point(index_to_coordinate(i, row_size).0 as usize, index_to_coordinate(i, row_size).1 as usize)
}

/// A game in progress: players take turns marking cells of the board.
pub struct Game {
    players: Vec<Rc<Player>>,
    fields: GameField,
    turn: usize,
    is_finished: bool,
}

impl View for Game {
    type V = GameView;

    closed spec fn view(&self) -> GameView {
        GameView {
            players: self.players@.map_values(|p: Rc<Player>| *p),
            board: self.fields@,
            turn: self.turn as nat,
            finished: self.is_finished,
        }
    }
}

impl Game {
    pub open spec fn wf(&self) -> bool {
        &&& self@.turn < self@.players.len()
        &&& self@.board.valid()
    }

    /// A game on `fields` between `players`, given as (sign, name) in turn
    /// order; the first one moves first.
    pub fn new(players: Vec<(char, &str)>, fields: GameField) -> (r: Game)
        requires
            players@.len() > 0,
            fields.wf(),
        ensures
            r.wf(),
            r@.players.len() == players@.len(),
            forall|i: int|
                0 <= i < players@.len() ==> (#[trigger] r@.players[i]).sign == players@[i].0
                    && r@.players[i].name@ == players@[i].1@,
            r@.board == fields@,
            r@.turn == 0,
            !r@.finished,
    {
        let mut roster: Vec<Rc<Player>> = Vec::new();
        let mut i: usize = 0;
        while i < players.len()
            invariant
                i <= players@.len(),
                roster@.len() == i,
                forall|j: int|
                    0 <= j < i ==> (#[trigger] roster@[j]).sign == players@[j].0
                        && roster@[j].name@ == players@[j].1@,
            decreases players@.len() - i,
        {
            let (sign, name) = players[i];
            roster.push(Rc::new(Player::new(name, sign)));
            i += 1;
        }
        Game { players: roster, fields, turn: 0, is_finished: false }
    }

    /// The current player takes cell `point`; on success the turn passes to
    /// the next player, wrapping round after the last one.
    pub fn mark(&mut self, point: Point) -> (r: Result<(), MoveError>)
        requires
            old(self).wf(),
        ensures
            final(self).wf(),
            r == old(self)@.board.mark_result(point),
            r is Ok ==> final(self)@ == old(self)@.marked(point),
            r is Err ==> final(self)@ == old(self)@,
    {
        let player = share_player(&self.players[self.turn]);
        let result = self.fields.mark(player, point);
        if result.is_ok() {
            let next = if self.turn < self.players.len() - 1 {
                self.turn + 1
            } else {
                0
            };
            proof {
                let len = self.players@.len() as int;
                if next == 0 {
                    lemma_mod_self_0(len);
                } else {
                    lemma_small_mod((self.turn + 1) as nat, len as nat);
                }
                assert(next == (self.turn + 1) as int % len);
            }
            self.turn = next;
        }
        assert(self@.players =~= old(self)@.players);
        result
    }

    /// Marks the cell of flat index `i`.
    pub fn mark_by_index(&mut self, i: usize) -> (r: Result<(), MoveError>)
        requires
            old(self).wf(),
        ensures
            final(self).wf(),
            r == old(self)@.board.mark_result(point_of_index(i as int, old(self)@.board.row_size as int)),
            r is Ok ==> final(self)@ == old(self)@.marked(
                point_of_index(i as int, old(self)@.board.row_size as int),
            ),
            r is Err ==> final(self)@ == old(self)@,
    {
        self.mark(Point::from_index(i, self.fields.row_size()))
    }

    pub fn state(&self) -> (r: GameState)
        requires
            self.wf(),
        ensures
            r@ == self@.board.state(),
    {
        self.fields.state()
    }

    pub fn is_finished(&self) -> (r: bool)
        ensures
            r == self@.finished,
    {
        self.is_finished
    }

    pub fn quit(&mut self)
        ensures
            final(self)@ == (GameView { finished: true, ..old(self)@ }),
    {
        self.is_finished = true;
    }

    /// The roster in turn order.
    pub fn players(&self) -> (r: &Vec<Rc<Player>>)
        ensures
            r@.map_values(|p: Rc<Player>| *p) == self@.players,
    {
        &self.players
    }

    /// The index in the roster of the player whose turn it is.
    pub fn turn(&self) -> (r: usize)
        ensures
            r == self@.turn,
    {
        self.turn
    }

    pub fn fields(&self) -> (r: &GameField)
        ensures
            r@ == self@.board,
    {
        &self.fields
    }
}

/// The outcome of a game depends on its board alone: two games with the same
/// board, or two queries with no move between them, report the same state.
pub proof fn lemma_state_is_function_of_board(a: GameView, b: GameView)
    requires
        a.board == b.board,
    ensures
        a.board.state() == b.board.state(),
{
}

} // verus!
