//! The game state machine: one grid, an exit flag, and the operations
//! the run loop applies to them.

use vstd::prelude::*;

use crate::grid::{blank_of, demo_seq, is_solved_seq, lemma_blank, solved_cell, wf, Cell, Grid};
use crate::moves::{lemma_move_wf, move_legal, move_result, move_target, Dir};
use crate::parity::solvable;
use crate::shuffle::{demo_grid, new_grid};

verus! {

/// How the starting grid is chosen: a fixed demonstration arrangement,
/// or a fresh random shuffle.
#[derive(Clone, Copy, PartialEq, Eq, Structural, Debug)]
pub enum Mode {
    Demo,
    Standard,
}

/// One discrete command from the player.
#[derive(Clone, Copy, PartialEq, Eq, Structural, Debug)]
pub enum Command {
    MoveUp,
    MoveDown,
    MoveLeft,
    MoveRight,
    Restart,
    Quit,
    Noop,
}

/// The puzzle state: the grid and whether the player asked to quit.
pub struct App {
    grid: Grid,
    exit: bool,
}

impl View for App {
    type V = Seq<Cell>;

    closed spec fn view(&self) -> Seq<Cell> {
        self.grid@
    }
}

impl App {
    /// Whether a quit command has been received.
    pub closed spec fn exiting(&self) -> bool {
        self.exit
    }

    /// Start a game: a fresh solvable shuffle, or the fixed (also
    /// solvable) demonstration grid in demo mode.
    pub fn new(mode: Mode) -> (app: App)
        ensures
            wf(app@),
            solvable(app@),
            !app.exiting(),
            mode is Demo ==> app@ == demo_seq(),
    {
        let grid = match mode {
            Mode::Demo => demo_grid(),
            Mode::Standard => new_grid(),
        };
        App { grid, exit: false }
    }

    /// Start a game on a caller-supplied grid.
    pub fn with_grid(grid: Grid) -> (app: App)
        ensures
            app@ == grid@,
            !app.exiting(),
    {
        App { grid, exit: false }
    }

    /// Replace the grid with a freshly shuffled one, discarding the old
    /// grid entirely: the result satisfies the same invariants as at
    /// construction, whatever the prior configuration was.
    pub fn shuffle(&mut self)
        ensures
            wf(final(self)@),
            solvable(final(self)@),
            final(self).exiting() == old(self).exiting(),
    {
        self.grid = new_grid();
    }

    /// Whether a quit command has been received, as executable code.
    pub fn should_exit(&self) -> (r: bool)
        ensures
            r == self.exiting(),
    {
        self.exit
    }

    /// The cell at column `x`, row `y`.
    pub fn cell(&self, x: usize, y: usize) -> (c: Cell)
        requires
            x < 4,
            y < 4,
            wf(self@),
        ensures
            c == self@[4 * y + x],
    {
        self.grid.cell(x, y)
    }

    /// Win check: true exactly when the grid reads `1, 2, ..., 15`
    /// and then the blank in row-major order.
    pub fn is_win(&self) -> (r: bool)
        ensures
            r == is_solved_seq(self@),
    {
        if self.grid.cell_count() != 16 {
            return false;
        }
        let mut i: usize = 0;
        while i < 16
            invariant
                self@.len() == 16,
                i <= 16,
                forall|j: int| 0 <= j < i ==> #[trigger] self@[j] == solved_cell(j),
            decreases 16 - i,
        {
            let expected = if i < 15 {
                Cell::Numbered((i + 1) as u8)
            } else {
                Cell::Empty
            };
            if self.grid.cell_at(i) != expected {
                return false;
            }
            i += 1;
        }
        true
    }

    /// The column and row of the blank slot.
    pub fn find_blank(&self) -> (r: (i8, i8))
        requires
            wf(self@),
        ensures
            r.0 as int == blank_of(self@) % 4,
            r.1 as int == blank_of(self@) / 4,
    {
        proof {
            lemma_blank(self@);
        }
        let mut i: usize = 0;
        while i < 16
            invariant
                wf(self@),
                i <= 16,
                forall|j: int| 0 <= j < i ==> !(#[trigger] self@[j] is Empty),
            decreases 16 - i,
        {
            match self.grid.cell_at(i) {
                Cell::Empty => {
                    proof {
                        assert(i as int == blank_of(self@));
                    }
                    return ((i % 4) as i8, (i / 4) as i8);
                },
                Cell::Numbered(_) => {},
            }
            i += 1;
        }
        proof {
            assert(self@[blank_of(self@)] is Empty);
        }
        vstd::pervasive::unreached()
    }

    /// Ask the blank to move one step in direction `d`. A legal move
    /// exchanges the blank with the neighboring tile and returns true;
    /// a move off the board changes nothing and returns false.
    pub fn make_move(&mut self, d: Dir) -> (r: bool)
        requires
            wf(old(self)@),
        ensures
            wf(final(self)@),
            r == move_legal(old(self)@, d),
            final(self)@ == move_result(old(self)@, d),
            final(self).exiting() == old(self).exiting(),
    {
        proof {
            lemma_blank(self@);
        }
        let (bx, by) = self.find_blank();
        let (dx, dy): (i8, i8) = match d {
            Dir::Up => (0, -1),
            Dir::Down => (0, 1),
            Dir::Left => (-1, 0),
            Dir::Right => (1, 0),
        };
        let tx = bx + dx;
        let ty = by + dy;
        if tx < 0 || tx >= 4 || ty < 0 || ty >= 4 {
            return false;
        }
        let b = (by as usize) * 4 + (bx as usize);
        let t = (ty as usize) * 4 + (tx as usize);
        proof {
            assert(b == blank_of(self@));
            assert(t == move_target(self@, d));
            lemma_move_wf(self@, d);
        }
        self.grid.swap_cells(b, t);
        true
    }

    /// Apply one player command: quit raises the exit flag, restart
    /// reshuffles, a direction moves the blank, and anything else is
    /// ignored.
    pub fn handle_command(&mut self, cmd: Command)
        requires
            wf(old(self)@),
        ensures
            wf(final(self)@),
            cmd is Quit ==> final(self)@ == old(self)@ && final(self).exiting(),
            !(cmd is Quit) ==> final(self).exiting() == old(self).exiting(),
            cmd is Restart ==> solvable(final(self)@),
            cmd is MoveUp ==> final(self)@ == move_result(old(self)@, Dir::Up),
            cmd is MoveDown ==> final(self)@ == move_result(old(self)@, Dir::Down),
            cmd is MoveLeft ==> final(self)@ == move_result(old(self)@, Dir::Left),
            cmd is MoveRight ==> final(self)@ == move_result(old(self)@, Dir::Right),
            cmd is Noop ==> final(self)@ == old(self)@,
    {
        match cmd {
            Command::Quit => {
                self.exit = true;
            },
            Command::Restart => {
                self.shuffle();
            },
            Command::MoveUp => {
                let _moved = self.make_move(Dir::Up);
            },
            Command::MoveDown => {
                let _moved = self.make_move(Dir::Down);
            },
            Command::MoveLeft => {
                let _moved = self.make_move(Dir::Left);
            },
            Command::MoveRight => {
                let _moved = self.make_move(Dir::Right);
            },
            Command::Noop => {},
        }
    }
}

} // verus!
