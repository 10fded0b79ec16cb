use crate::game::Game;
use crate::input::Input;
use vstd::arithmetic::div_mod::{
    lemma_fundamental_div_mod, lemma_fundamental_div_mod_converse, lemma_mod_pos_bound,
    lemma_mod_self_0, lemma_small_mod,
};
use vstd::prelude::*;

verus! {

/// Where the cursor on cell `c` lands after `input`, on a board of `n` cells
/// in rows of `r`: left and right wrap round within the row, up and down wrap
/// round the column; other inputs leave it in place.
pub open spec fn moved(c: int, r: int, n: int, input: Input) -> int {
    match input {
        Input::RIGHT => (c / r) * r + (c % r + 1) % r,
        Input::LEFT => (c / r) * r + (c % r + r - 1) % r,
        Input::UP => (c + n - r) % n,
        Input::DOWN => (c + r) % n,
        _ => c,
    }
}

/// The cursor of the terminal front end: the flat index of the cell it is on.
pub struct AsciiUI {
    pub considering: usize,
}

impl AsciiUI {
    pub fn new() -> (r: AsciiUI)
        ensures
            r.considering == 0,
    {
        Self { considering: 0 }
    }

    /// Moves the cursor, which is on the board, as `input` says; it stays on
    /// the board.
    pub fn move_(&mut self, game: &Game, input: Input)
        requires
            game.wf(),
            old(self).considering < game@.board.cells.len(),
        ensures
            final(self).considering == moved(
                old(self).considering as int,
                game@.board.row_size as int,
                game@.board.cells.len() as int,
                input,
            ),
            final(self).considering < game@.board.cells.len(),
    {
        let total = game.fields().fields().len();
        let field_len = game.fields().row_size();
        let c = self.considering;
        let col = c % field_len;
        proof {
            let r = field_len as int;
            let cs = game@.board.column_size as int;
            lemma_fundamental_div_mod(c as int, r);
            lemma_mod_pos_bound(c as int, r);
            assert(c as int == (c as int / r) * r + col) by (nonlinear_arith)
                requires
                    c as int == r * (c as int / r) + c as int % r,
                    col == c as int % r,
            ;
            let q = c as int / r;
            assert(total >= r) by (nonlinear_arith)
                requires
                    total == r * cs,
                    cs > 0,
                    r > 0,
            ;
            assert(q < cs) by (nonlinear_arith)
                requires
                    total == r * cs,
                    c < total,
                    c as int == q * r + col,
                    0 <= col,
                    r > 0,
            ;
            assert(q * r + r <= total) by (nonlinear_arith)
                requires
                    total == r * cs,
                    q < cs,
                    r > 0,
            ;
        }
        let change = match input {
            Input::RIGHT => {
                if col + 1 == field_len {
                    proof {
                        lemma_mod_self_0(field_len as int);
                    }
                    c - col
                } else {
                    proof {
                        lemma_small_mod((col + 1) as nat, field_len as nat);
                    }
                    c + 1
                }
            },
            Input::LEFT => {
                if col == 0 {
                    proof {
                        lemma_small_mod((field_len - 1) as nat, field_len as nat);
                    }
                    c + (field_len - 1)
                } else {
                    proof {
                        lemma_fundamental_div_mod_converse(
                            col + field_len - 1,
                            field_len as int,
                            1,
                            col - 1,
                        );
                    }
                    c - 1
                }
            },
            Input::UP => {
                if c < field_len {
                    proof {
                        lemma_small_mod((c + total - field_len) as nat, total as nat);
                    }
                    c + (total - field_len)
                } else {
                    proof {
                        lemma_fundamental_div_mod_converse(
                            c + total - field_len,
                            total as int,
                            1,
                            c - field_len,
                        );
                    }
                    c - field_len
                }
            },
            Input::DOWN => {
                if c >= total - field_len {
                    proof {
                        lemma_fundamental_div_mod_converse(
                            c + field_len,
                            total as int,
                            1,
                            c + field_len - total,
                        );
                    }
                    c - (total - field_len)
                } else {
                    proof {
                        lemma_small_mod((c + field_len) as nat, total as nat);
                    }
                    c + field_len
                }
            },
            _ => c,
        };
        self.considering = change;
    }
}

} // verus!
