//! Moves: the blank slides one step up, down, left or right.
//!
//! A direction names where the blank goes; the tile standing there slides
//! into the blank's old slot. A move that would leave the 4x4 board is
//! illegal and leaves the grid unchanged.

use vstd::prelude::*;

use crate::grid::{blank_of, lemma_blank, lemma_swap_wf, swap_seq, wf, Cell};

verus! {

/// A direction the blank can move in. `Up` is toward smaller row
/// numbers, `Left` toward smaller column numbers.
#[derive(Clone, Copy, PartialEq, Eq, Structural, Debug)]
pub enum Dir {
    Up,
    Down,
    Left,
    Right,
}

/// Column offset of a direction.
pub open spec fn dir_dx(d: Dir) -> int {
    match d {
        Dir::Left => -1,
        Dir::Right => 1,
        _ => 0,
    }
}

/// Row offset of a direction.
pub open spec fn dir_dy(d: Dir) -> int {
    match d {
        Dir::Up => -1,
        Dir::Down => 1,
        _ => 0,
    }
}

/// The direction that undoes `d`.
pub open spec fn dir_inverse(d: Dir) -> Dir {
    match d {
        Dir::Up => Dir::Down,
        Dir::Down => Dir::Up,
        Dir::Left => Dir::Right,
        Dir::Right => Dir::Left,
    }
}

/// A move is legal when the blank's destination stays on the board.
pub open spec fn move_legal(s: Seq<Cell>, d: Dir) -> bool {
    let b = blank_of(s);
    &&& 0 <= b % 4 + dir_dx(d) < 4
    &&& 0 <= b / 4 + dir_dy(d) < 4
}

/// The slot the blank moves into.
pub open spec fn move_target(s: Seq<Cell>, d: Dir) -> int {
    blank_of(s) + dir_dx(d) + 4 * dir_dy(d)
}

/// The grid after asking the blank to move in direction `d`: the blank
/// and the neighboring tile exchange slots if the move is legal, and
/// nothing changes otherwise.
pub open spec fn move_result(s: Seq<Cell>, d: Dir) -> Seq<Cell> {
    if move_legal(s, d) {
        swap_seq(s, blank_of(s), move_target(s, d))
    } else {
        s
    }
}

/// A legal move's target slot is on the board and differs from the
/// blank's slot.
pub proof fn lemma_target_bounds(s: Seq<Cell>, d: Dir)
    requires
        wf(s),
        move_legal(s, d),
    ensures
        0 <= move_target(s, d) < 16,
        move_target(s, d) != blank_of(s),
        move_target(s, d) % 4 == blank_of(s) % 4 + dir_dx(d),
        move_target(s, d) / 4 == blank_of(s) / 4 + dir_dy(d),
{
    lemma_blank(s);
    let b = blank_of(s);
    let t = move_target(s, d);
    assert(b == 4 * (b / 4) + b % 4);
    assert(t == 4 * (b / 4 + dir_dy(d)) + (b % 4 + dir_dx(d)));
    assert(t % 4 == b % 4 + dir_dx(d) && t / 4 == b / 4 + dir_dy(d)) by (nonlinear_arith)
        requires
            t == 4 * (b / 4 + dir_dy(d)) + (b % 4 + dir_dx(d)),
            0 <= b % 4 + dir_dx(d) < 4,
            0 <= b / 4 + dir_dy(d) < 4,
    ;
}

/// Moving keeps the grid well-formed, and a legal move parks the blank
/// on the target slot.
pub proof fn lemma_move_wf(s: Seq<Cell>, d: Dir)
    requires
        wf(s),
    ensures
        wf(move_result(s, d)),
        move_legal(s, d) ==> blank_of(move_result(s, d)) == move_target(s, d),
{
    if move_legal(s, d) {
        lemma_blank(s);
        lemma_target_bounds(s, d);
        let b = blank_of(s);
        let t = move_target(s, d);
        lemma_swap_wf(s, b, t);
        let s2 = move_result(s, d);
        assert(s2[t] is Empty);
        lemma_blank(s2);
    }
}

/// A legal move exchanges exactly the blank and its neighbor: the tile
/// moves into the blank's old slot, the blank into the tile's, and the
/// other 14 cells keep their places.
pub proof fn lemma_move_swaps_two(s: Seq<Cell>, d: Dir)
    requires
        wf(s),
        move_legal(s, d),
    ensures
        move_result(s, d)[blank_of(s)] == s[move_target(s, d)],
        move_result(s, d)[move_target(s, d)] is Empty,
        forall|i: int|
            0 <= i < 16 && i != blank_of(s) && i != move_target(s, d)
                ==> #[trigger] move_result(s, d)[i] == s[i],
{
    lemma_blank(s);
    lemma_target_bounds(s, d);
}

/// Move invertibility: a legal move followed by the inverse move
/// restores the grid exactly.
pub proof fn lemma_move_roundtrip(s: Seq<Cell>, d: Dir)
    requires
        wf(s),
        move_legal(s, d),
    ensures
        move_legal(move_result(s, d), dir_inverse(d)),
        move_result(move_result(s, d), dir_inverse(d)) == s,
{
    lemma_blank(s);
    lemma_target_bounds(s, d);
    lemma_move_wf(s, d);
    let b = blank_of(s);
    let t = move_target(s, d);
    let s2 = move_result(s, d);
    let e = dir_inverse(d);
    assert(blank_of(s2) == t);
    assert(dir_dx(e) == -dir_dx(d) && dir_dy(e) == -dir_dy(d));
    lemma_blank(s2);
    assert(t % 4 + dir_dx(e) == b % 4 && t / 4 + dir_dy(e) == b / 4);
    assert(move_legal(s2, e));
    assert(move_target(s2, e) == b);
    assert(move_result(s2, e) =~= s);
}

} // verus!
