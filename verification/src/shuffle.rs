//! Shuffling: building a random, solvable starting grid.
//!
//! Starting from the solved arrangement, the shuffle exchanges fifty
//! uniformly drawn pairs of distinct tile slots, leaving the blank in its
//! home corner. An even number of such transpositions keeps the grid's
//! inversion parity at the solved grid's value, so the classical
//! solvability check holds of every result.

use vstd::prelude::*;

use rand::RngExt;

use crate::grid::{demo_seq, lemma_demo_wf, solved_seq, wf, Cell, Grid};
use crate::parity::{
    blank_dist, inv_count, lemma_demo_solvable, lemma_solved_inversions, lemma_tile_swap_step,
    solvable,
};

verus! {

/// Relies on `rand::rng` and `rand::RngExt::random_range`: returns a
/// uniformly distributed index in `[0, bound)`. Nothing is assumed of
/// the draw beyond its bound. The thread-local generator's initial and
/// periodic reseeding can panic if the operating system's entropy
/// source fails; that is environment-dependent and not excluded here.
#[verifier::external_body]
fn random_index(bound: usize) -> (r: usize)
    requires
        1 <= bound,
    ensures
        r < bound,
{
    rand::rng().random_range(0..bound)
}

/// Create a freshly shuffled grid: starting from the solved arrangement,
/// exchange fifty uniformly drawn pairs of distinct tile slots, keeping
/// the blank in its home corner. Fifty is an even number, so the
/// inversion parity stays the solved grid's and the result is solvable.
pub fn new_grid() -> (g: Grid)
    ensures
        wf(g@),
        solvable(g@),
        crate::grid::blank_of(g@) == 15,
{
    let mut g = Grid::solved();
    proof {
        crate::grid::lemma_blank(g@);
        assert(g@[15] is Empty);
        lemma_solved_inversions();
    }
    let mut i: usize = 0;
    while i < 50
        invariant
            wf(g@),
            crate::grid::blank_of(g@) == 15,
            inv_count(g@) % 2 == (15 + i) % 2,
            i <= 50,
        decreases 50 - i,
    {
        let a = random_index(15);
        let r = random_index(14);
        let b = if r >= a {
            r + 1
        } else {
            r
        };
        let ghost prev = g@;
        g.swap_cells(a, b);
        proof {
            lemma_tile_swap_step(prev, a as int, b as int);
        }
        i += 1;
    }
    proof {
        assert(blank_dist(g@) == 0);
    }
    g
}

/// A fixed, known-shuffled grid for demonstration runs: no randomness,
/// the same arrangement every time, solvable like a fresh shuffle.
pub fn demo_grid() -> (g: Grid)
    ensures
        g@ == demo_seq(),
        wf(g@),
        solvable(g@),
{
    let mut cells: Vec<Cell> = Vec::new();
    cells.push(Cell::Numbered(1));
    cells.push(Cell::Numbered(2));
    cells.push(Cell::Numbered(3));
    cells.push(Cell::Numbered(4));
    cells.push(Cell::Numbered(5));
    cells.push(Cell::Numbered(6));
    cells.push(Cell::Numbered(7));
    cells.push(Cell::Numbered(8));
    cells.push(Cell::Numbered(11));
    cells.push(Cell::Numbered(12));
    cells.push(Cell::Numbered(13));
    cells.push(Cell::Numbered(15));
    cells.push(Cell::Numbered(10));
    cells.push(Cell::Numbered(9));
    cells.push(Cell::Empty);
    cells.push(Cell::Numbered(14));
    proof {
        assert(cells@ =~= demo_seq());
        lemma_demo_wf();
        lemma_demo_solvable();
    }
    match Grid::from_cells(cells) {
        Some(g) => g,
        None => vstd::pervasive::unreached(),
    }
}

} // verus!
