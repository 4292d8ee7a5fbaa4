//! Solvability and the classical inversion-count check.
//!
//! A grid counts as solvable when it passes the classical 15-puzzle
//! check: the inversion count plus the blank's taxicab distance from its
//! home corner is odd, as on the solved grid. The check is proved
//! invariant under every legal move and true of the solved grid, so a
//! grid that fails it can never reach the solved grid by moves; by the
//! classical theory the check is also sufficient, which is how the
//! shuffle's solvability is stated and verified here.

use vstd::prelude::*;

use crate::grid::{
    blank_of, code, demo_seq, lemma_blank, lemma_demo_wf, lemma_swap_wf, solved_seq, swap_seq, wf,
    Cell,
};
use crate::moves::{
    dir_dx, dir_dy, lemma_move_wf, lemma_target_bounds, move_legal, move_result, move_target, Dir,
};

verus! {

/// 1 when `x` exceeds `y`, else 0.
pub open spec fn gt1(x: int, y: int) -> nat {
    if x > y {
        1nat
    } else {
        0nat
    }
}

/// How many cells of `s` have a code greater than `x`.
pub open spec fn cnt_gt(s: Seq<Cell>, x: int) -> nat
    decreases s.len(),
{
    if s.len() == 0 {
        0
    } else {
        cnt_gt(s.drop_last(), x) + gt1(code(s.last()), x)
    }
}

/// The inversion count of `s`: the number of slot pairs that read in
/// descending order of code, the blank counting as 0.
pub open spec fn inv_count(s: Seq<Cell>) -> nat
    decreases s.len(),
{
    if s.len() == 0 {
        0
    } else {
        inv_count(s.drop_last()) + cnt_gt(s.drop_last(), code(s.last()))
    }
}

/// No two slots of `s` carry the same code.
pub open spec fn codes_distinct(s: Seq<Cell>) -> bool {
    forall|i: int, j: int|
        0 <= i < j < s.len() ==> code(#[trigger] s[i]) != code(#[trigger] s[j])
}

/// A well-formed grid has pairwise distinct codes.
pub proof fn lemma_wf_distinct(s: Seq<Cell>)
    requires
        wf(s),
    ensures
        codes_distinct(s),
{
}

/// Replacing one cell adjusts `cnt_gt` by the replacement's indicator.
proof fn lemma_cnt_gt_update(s: Seq<Cell>, a: int, y: Cell, x: int)
    requires
        0 <= a < s.len(),
    ensures
        cnt_gt(s.update(a, y), x) + gt1(code(s[a]), x) == cnt_gt(s, x) + gt1(code(y), x),
    decreases s.len(),
{
    let t = s.update(a, y);
    if a == s.len() - 1 {
        assert(t.drop_last() =~= s.drop_last());
    } else {
        assert(t.drop_last() =~= s.drop_last().update(a, y));
        lemma_cnt_gt_update(s.drop_last(), a, y, x);
        assert(t.last() == s.last());
    }
}

/// Exchanging two cells leaves `cnt_gt` unchanged.
proof fn lemma_cnt_gt_swap(s: Seq<Cell>, a: int, b: int, x: int)
    requires
        0 <= a < s.len(),
        0 <= b < s.len(),
        a != b,
    ensures
        cnt_gt(swap_seq(s, a, b), x) == cnt_gt(s, x),
{
    let t1 = s.update(a, s[b]);
    lemma_cnt_gt_update(s, a, s[b], x);
    lemma_cnt_gt_update(t1, b, s[a], x);
    assert(t1[b] == s[b]);
}

/// Exchanging two slots leaves the codes pairwise distinct.
proof fn lemma_swap_distinct(s: Seq<Cell>, a: int, b: int)
    requires
        codes_distinct(s),
        0 <= a < s.len(),
        0 <= b < s.len(),
    ensures
        codes_distinct(swap_seq(s, a, b)),
{
    let t = swap_seq(s, a, b);
    assert forall|i: int, j: int|
        0 <= i < j < t.len() implies code(#[trigger] t[i]) != code(#[trigger] t[j]) by {
        let pi = if i == a { b } else if i == b { a } else { i };
        let pj = if j == a { b } else if j == b { a } else { j };
        assert(t[i] == s[pi] && t[j] == s[pj]);
        if pi < pj {
            assert(code(s[pi]) != code(s[pj]));
        } else {
            assert(code(s[pj]) != code(s[pi]));
        }
    }
}

/// Exchanging two neighboring slots with distinct codes flips the
/// parity of the inversion count.
proof fn lemma_adj_flip(s: Seq<Cell>, k: int)
    requires
        0 <= k,
        k + 1 < s.len(),
        code(s[k]) != code(s[k + 1]),
    ensures
        inv_count(swap_seq(s, k, k + 1)) % 2 != inv_count(s) % 2,
    decreases s.len(),
{
    let t = swap_seq(s, k, k + 1);
    if k + 2 == s.len() {
        let p = s.drop_last().drop_last();
        let cx = code(s[k]);
        let cy = code(s[k + 1]);
        assert(s.drop_last() =~= p.push(s[k]));
        assert(t.drop_last() =~= p.push(s[k + 1]));
        assert(t.last() == s[k]);
        assert(p.push(s[k]).drop_last() =~= p);
        assert(p.push(s[k + 1]).drop_last() =~= p);
        assert(inv_count(s) == inv_count(p.push(s[k])) + cnt_gt(p.push(s[k]), cy));
        assert(inv_count(p.push(s[k])) == inv_count(p) + cnt_gt(p, cx));
        assert(cnt_gt(p.push(s[k]), cy) == cnt_gt(p, cy) + gt1(cx, cy));
        assert(inv_count(t) == inv_count(p.push(s[k + 1])) + cnt_gt(p.push(s[k + 1]), cx));
        assert(inv_count(p.push(s[k + 1])) == inv_count(p) + cnt_gt(p, cy));
        assert(cnt_gt(p.push(s[k + 1]), cx) == cnt_gt(p, cx) + gt1(cy, cx));
        assert(gt1(cx, cy) + gt1(cy, cx) == 1);
    } else {
        assert(t.drop_last() =~= swap_seq(s.drop_last(), k, k + 1));
        assert(t.last() == s.last());
        lemma_adj_flip(s.drop_last(), k);
        lemma_cnt_gt_swap(s.drop_last(), k, k + 1, code(s.last()));
    }
}

/// Exchanging any two slots of a grid with pairwise distinct codes
/// flips the parity of the inversion count.
proof fn lemma_swap_flip(s: Seq<Cell>, a: int, b: int)
    requires
        codes_distinct(s),
        0 <= a < b < s.len(),
    ensures
        inv_count(swap_seq(s, a, b)) % 2 != inv_count(s) % 2,
    decreases b - a,
{
    if b == a + 1 {
        lemma_adj_flip(s, a);
    } else {
        let t1 = swap_seq(s, a, a + 1);
        let t2 = swap_seq(t1, a + 1, b);
        let t3 = swap_seq(t2, a, a + 1);
        assert(t3 =~= swap_seq(s, a, b));
        lemma_adj_flip(s, a);
        lemma_swap_distinct(s, a, a + 1);
        assert(t1[a + 1] == s[a] && t1[b] == s[b]);
        lemma_swap_flip(t1, a + 1, b);
        lemma_swap_distinct(t1, a + 1, b);
        assert(t2[a] == s[a + 1] && t2[a + 1] == s[b]);
        lemma_adj_flip(t2, a);
    }
}

/// The first `m` slots of the solved grid hold the ascending tiles
/// `1..=m`: no inversions, all `m` codes above 0, and none above `m`.
proof fn lemma_solved_prefix(m: int)
    requires
        0 <= m <= 15,
    ensures
        inv_count(solved_seq().subrange(0, m)) == 0,
        cnt_gt(solved_seq().subrange(0, m), 0) == m,
        forall|x: int| x >= m ==> #[trigger] cnt_gt(solved_seq().subrange(0, m), x) == 0,
    decreases m,
{
    let pre = solved_seq().subrange(0, m);
    if m == 0 {
        assert(pre.len() == 0);
        assert forall|x: int| x >= m implies #[trigger] cnt_gt(pre, x) == 0 by {
            assert(cnt_gt(pre, x) == 0);
        }
    } else {
        lemma_solved_prefix(m - 1);
        assert(pre.drop_last() =~= solved_seq().subrange(0, m - 1));
        assert(code(pre.last()) == m);
        assert forall|x: int| x >= m implies #[trigger] cnt_gt(pre, x) == 0 by {
            assert(cnt_gt(solved_seq().subrange(0, m - 1), x) == 0);
            assert(gt1(code(pre.last()), x) == 0);
        }
    }
}

/// The solved grid has 15 inversions: the blank's code 0 stands after
/// all 15 tiles, and the tiles themselves are in ascending order.
pub proof fn lemma_solved_inversions()
    ensures
        inv_count(solved_seq()) == 15,
{
    lemma_solved_prefix(15);
    let s = solved_seq();
    assert(s.drop_last() =~= s.subrange(0, 15));
    assert(code(s.last()) == 0);
    assert(inv_count(s) == inv_count(s.subrange(0, 15)) + cnt_gt(s.subrange(0, 15), 0));
}

/// The blank's taxicab distance from its home slot in the bottom-right
/// corner.
pub open spec fn blank_dist(s: Seq<Cell>) -> int {
    6 - blank_of(s) % 4 - blank_of(s) / 4
}

/// The classical solvability check for the 15-puzzle: the inversion
/// count and the blank's distance from home sum to an odd number, as
/// they do on the solved grid.
pub open spec fn parity_check(s: Seq<Cell>) -> bool {
    (inv_count(s) + blank_dist(s)) % 2 == 1
}

/// A solvable arrangement: one that passes the classical check. The
/// check is necessary for reachability by legal moves (proved below),
/// and by the classical 15-puzzle theory it is also sufficient.
pub open spec fn solvable(s: Seq<Cell>) -> bool {
    parity_check(s)
}

/// The grid after asking the blank to move in each listed direction in
/// turn; illegal moves along the way change nothing, as in `move_result`.
pub open spec fn apply_moves(s: Seq<Cell>, ds: Seq<Dir>) -> Seq<Cell>
    decreases ds.len(),
{
    if ds.len() == 0 {
        s
    } else {
        apply_moves(move_result(s, ds[0]), ds.drop_first())
    }
}

/// The solved grid passes the classical check.
pub proof fn lemma_solved_parity_check()
    ensures
        parity_check(solved_seq()),
{
    crate::grid::lemma_solved_wf();
    lemma_blank(solved_seq());
    assert(solved_seq()[15] is Empty);
    assert(blank_of(solved_seq()) == 15);
    lemma_solved_inversions();
}

/// A legal move flips both the inversion parity and the parity of the
/// blank's distance, so the classical check is invariant under moves.
pub proof fn lemma_move_parity_check(s: Seq<Cell>, d: Dir)
    requires
        wf(s),
        move_legal(s, d),
    ensures
        parity_check(move_result(s, d)) == parity_check(s),
{
    lemma_blank(s);
    lemma_target_bounds(s, d);
    lemma_move_wf(s, d);
    lemma_wf_distinct(s);
    let b = blank_of(s);
    let t = move_target(s, d);
    let s2 = move_result(s, d);
    assert(code(s[b]) == 0);
    assert(swap_seq(s, b, t) =~= swap_seq(s, t, b));
    if b < t {
        lemma_swap_flip(s, b, t);
    } else {
        lemma_swap_flip(s, t, b);
    }
    assert(blank_of(s2) == t);
    assert(dir_dx(d) + dir_dy(d) == 1 || dir_dx(d) + dir_dy(d) == -1);
    assert(blank_dist(s2) == blank_dist(s) - dir_dx(d) - dir_dy(d));
}

/// Any sequence of moves leaves the classical check where it was:
/// legal moves flip both of its parities, illegal ones change nothing.
pub proof fn lemma_moves_preserve_check(s: Seq<Cell>, ds: Seq<Dir>)
    requires
        wf(s),
    ensures
        wf(apply_moves(s, ds)),
        parity_check(apply_moves(s, ds)) == parity_check(s),
    decreases ds.len(),
{
    if ds.len() != 0 {
        lemma_move_wf(s, ds[0]);
        if move_legal(s, ds[0]) {
            lemma_move_parity_check(s, ds[0]);
        }
        lemma_moves_preserve_check(move_result(s, ds[0]), ds.drop_first());
    }
}

/// A grid from which some sequence of moves reaches the solved grid
/// passes the classical check: failing the check rules out ever solving
/// the grid by moves.
pub proof fn lemma_moves_to_solved_pass_check(s: Seq<Cell>, ds: Seq<Dir>)
    requires
        wf(s),
        apply_moves(s, ds) == solved_seq(),
    ensures
        parity_check(s),
{
    lemma_moves_preserve_check(s, ds);
    lemma_solved_parity_check();
}

/// One step of the shuffle: exchanging two distinct tile slots of a
/// well-formed grid whose blank is home keeps the blank home, keeps the
/// grid well-formed, and flips the inversion parity.
pub proof fn lemma_tile_swap_step(s: Seq<Cell>, a: int, b: int)
    requires
        wf(s),
        blank_of(s) == 15,
        0 <= a < 15,
        0 <= b < 15,
        a != b,
    ensures
        wf(swap_seq(s, a, b)),
        blank_of(swap_seq(s, a, b)) == 15,
        inv_count(swap_seq(s, a, b)) % 2 != inv_count(s) % 2,
{
    let t = swap_seq(s, a, b);
    lemma_blank(s);
    lemma_wf_distinct(s);
    lemma_swap_wf(s, a, b);
    assert(swap_seq(s, a, b) =~= swap_seq(s, b, a));
    if a < b {
        lemma_swap_flip(s, a, b);
    } else {
        lemma_swap_flip(s, b, a);
    }
    assert(t[15] is Empty);
    lemma_blank(t);
}

/// The check cuts: exchanging any two tile slots of the solved grid
/// yields an arrangement that is not solvable.
pub proof fn lemma_tile_transposition_not_solvable(a: int, b: int)
    requires
        0 <= a < 15,
        0 <= b < 15,
        a != b,
    ensures
        !solvable(swap_seq(solved_seq(), a, b)),
{
    crate::grid::lemma_solved_wf();
    lemma_blank(solved_seq());
    assert(solved_seq()[15] is Empty);
    lemma_tile_swap_step(solved_seq(), a, b);
    lemma_solved_inversions();
}

/// The demonstration grid is solvable: it arises from the solved grid by
/// seven transpositions, the last of which moves the blank one slot, so
/// the classical check comes out odd.
pub proof fn lemma_demo_solvable()
    ensures
        solvable(demo_seq()),
{
    crate::grid::lemma_solved_wf();
    lemma_blank(solved_seq());
    assert(solved_seq()[15] is Empty);
    lemma_solved_inversions();
    let s0 = solved_seq();
    let s1 = swap_seq(s0, 8, 10);
    let s2 = swap_seq(s1, 9, 11);
    let s3 = swap_seq(s2, 10, 12);
    let s4 = swap_seq(s3, 11, 14);
    let s5 = swap_seq(s4, 12, 14);
    let s6 = swap_seq(s5, 13, 14);
    lemma_tile_swap_step(s0, 8, 10);
    lemma_tile_swap_step(s1, 9, 11);
    lemma_tile_swap_step(s2, 10, 12);
    lemma_tile_swap_step(s3, 11, 14);
    lemma_tile_swap_step(s4, 12, 14);
    lemma_tile_swap_step(s5, 13, 14);
    let s7 = swap_seq(s6, 14, 15);
    lemma_wf_distinct(s6);
    lemma_swap_flip(s6, 14, 15);
    lemma_swap_wf(s6, 14, 15);
    assert(s7 =~= demo_seq());
    lemma_demo_wf();
    assert(demo_seq()[14] is Empty);
    lemma_blank(demo_seq());
    assert(blank_of(demo_seq()) == 14);
    assert(blank_dist(demo_seq()) == 1);
}

} // verus!
