//! The 4x4 puzzle grid: cells, well-formedness, and the solved arrangement.
//!
//! The grid is stored flat, 16 cells in row-major order; slot `4 * y + x`
//! holds the cell at column `x`, row `y`. A well-formed grid holds the
//! fifteen tiles `1..=15` and one blank, each exactly once.

use vstd::prelude::*;

verus! {

/// One slot of the grid: the blank, or a tile numbered `1..=15`.
#[derive(Clone, Copy, PartialEq, Eq, Structural, Debug)]
pub enum Cell {
    Empty,
    Numbered(u8),
}

/// A numeric code for a cell: the blank is `0`, a tile is its number.
/// On well-formed grids the codes of the 16 slots are exactly `0..16`.
pub open spec fn code(c: Cell) -> int {
    match c {
        Cell::Empty => 0,
        Cell::Numbered(n) => n as int,
    }
}

/// A cell that may appear in a grid: the blank, or a tile in `1..=15`.
pub open spec fn cell_ok(c: Cell) -> bool {
    match c {
        Cell::Empty => true,
        Cell::Numbered(n) => 1 <= n <= 15,
    }
}

/// Some slot of `s` carries the code `v`.
pub open spec fn has_code(s: Seq<Cell>, v: int) -> bool {
    exists|i: int| 0 <= i < 16 && code(#[trigger] s[i]) == v
}

/// Some slot of `s` carries the tile numbered `v`.
pub open spec fn has_tile(s: Seq<Cell>, v: int) -> bool {
    exists|i: int| 0 <= i < 16 && #[trigger] s[i] == Cell::Numbered(v as u8)
}

/// Grid well-formedness: 16 valid cells whose codes are pairwise
/// distinct and cover `0..16`, so each tile `1..=15` and the blank
/// appear exactly once.
pub open spec fn wf(s: Seq<Cell>) -> bool {
    &&& s.len() == 16
    &&& forall|i: int| 0 <= i < 16 ==> cell_ok(#[trigger] s[i])
    &&& forall|i: int, j: int|
        0 <= i < 16 && 0 <= j < 16 && i != j ==> code(#[trigger] s[i]) != code(#[trigger] s[j])
    &&& forall|v: int| 0 <= v < 16 ==> #[trigger] has_code(s, v)
}

/// The cell that slot `i` holds in the canonical solved grid.
pub open spec fn solved_cell(i: int) -> Cell {
    if i < 15 {
        Cell::Numbered((i + 1) as u8)
    } else {
        Cell::Empty
    }
}

/// The canonical solved grid: `1..=15` row-major, then the blank.
pub open spec fn solved_seq() -> Seq<Cell> {
    Seq::new(16, |i: int| solved_cell(i))
}

/// The grid reads `1, 2, ..., 15, Empty` in row-major order.
pub open spec fn is_solved_seq(s: Seq<Cell>) -> bool {
    s.len() == 16 && forall|i: int| 0 <= i < 16 ==> #[trigger] s[i] == solved_cell(i)
}

/// The fixed demonstration arrangement, row-major: a nearly solved grid
/// with its last two rows disturbed.
pub open spec fn demo_seq() -> Seq<Cell> {
    seq![
        Cell::Numbered(1),
        Cell::Numbered(2),
        Cell::Numbered(3),
        Cell::Numbered(4),
        Cell::Numbered(5),
        Cell::Numbered(6),
        Cell::Numbered(7),
        Cell::Numbered(8),
        Cell::Numbered(11),
        Cell::Numbered(12),
        Cell::Numbered(13),
        Cell::Numbered(15),
        Cell::Numbered(10),
        Cell::Numbered(9),
        Cell::Empty,
        Cell::Numbered(14),
    ]
}

/// The demonstration arrangement is a well-formed grid.
pub proof fn lemma_demo_wf()
    ensures
        wf(demo_seq()),
{
    let s = demo_seq();
    assert(code(s[0]) == 1);
    assert(code(s[1]) == 2);
    assert(code(s[2]) == 3);
    assert(code(s[3]) == 4);
    assert(code(s[4]) == 5);
    assert(code(s[5]) == 6);
    assert(code(s[6]) == 7);
    assert(code(s[7]) == 8);
    assert(code(s[8]) == 11);
    assert(code(s[9]) == 12);
    assert(code(s[10]) == 13);
    assert(code(s[11]) == 15);
    assert(code(s[12]) == 10);
    assert(code(s[13]) == 9);
    assert(code(s[14]) == 0);
    assert(code(s[15]) == 14);
}

/// The slot holding the blank. Well-formedness makes it unique.
pub open spec fn blank_of(s: Seq<Cell>) -> int {
    choose|i: int| 0 <= i < 16 && s[i] is Empty
}

/// `s` with the contents of slots `a` and `b` exchanged.
pub open spec fn swap_seq(s: Seq<Cell>, a: int, b: int) -> Seq<Cell> {
    s.update(a, s[b]).update(b, s[a])
}

/// On a well-formed grid the blank exists, `blank_of` finds it, and no
/// other slot is empty.
pub proof fn lemma_blank(s: Seq<Cell>)
    requires
        wf(s),
    ensures
        0 <= blank_of(s) < 16,
        s[blank_of(s)] is Empty,
        forall|i: int| 0 <= i < 16 && #[trigger] s[i] is Empty ==> i == blank_of(s),
{
    assert(has_code(s, 0));
    let w = choose|i: int| 0 <= i < 16 && code(#[trigger] s[i]) == 0;
    assert(s[w] is Empty);
    let b = blank_of(s);
    assert(0 <= b < 16 && s[b] is Empty);
    assert forall|i: int| 0 <= i < 16 && #[trigger] s[i] is Empty implies i == b by {
        if i != b {
            assert(code(s[i]) == 0 && code(s[b]) == 0);
        }
    }
}

/// The canonical solved grid is well-formed.
pub proof fn lemma_solved_wf()
    ensures
        wf(solved_seq()),
        is_solved_seq(solved_seq()),
{
    let s = solved_seq();
    assert forall|v: int| 0 <= v < 16 implies #[trigger] has_code(s, v) by {
        if v == 0 {
            assert(code(s[15]) == 0);
        } else {
            assert(code(s[v - 1]) == v);
        }
    }
}

/// Exchanging two slots of a well-formed grid leaves it well-formed:
/// the same cells stand in the grid, two of them in new places.
pub proof fn lemma_swap_wf(s: Seq<Cell>, a: int, b: int)
    requires
        wf(s),
        0 <= a < 16,
        0 <= b < 16,
    ensures
        wf(swap_seq(s, a, b)),
{
    let t = swap_seq(s, a, b);
    assert forall|v: int| 0 <= v < 16 implies #[trigger] has_code(t, v) by {
        assert(has_code(s, v));
        let w = choose|i: int| 0 <= i < 16 && code(#[trigger] s[i]) == v;
        if w == a {
            assert(code(t[b]) == v);
        } else if w == b {
            assert(code(t[a]) == v);
        } else {
            assert(code(t[w]) == v);
        }
    }
}

/// Exactly-once reading of well-formedness: a well-formed grid has one
/// blank slot, and each tile number `1..=15` stands in exactly one slot.
pub proof fn lemma_wf_tiles(s: Seq<Cell>)
    requires
        wf(s),
    ensures
        exists|i: int| 0 <= i < 16 && #[trigger] s[i] is Empty,
        forall|i: int, j: int|
            0 <= i < 16 && 0 <= j < 16 && #[trigger] s[i] is Empty && #[trigger] s[j] is Empty
                ==> i == j,
        forall|v: int| 1 <= v <= 15 ==> #[trigger] has_tile(s, v),
        forall|i: int, j: int|
            0 <= i < 16 && 0 <= j < 16 && #[trigger] s[i] is Numbered && #[trigger] s[j] == s[i]
                ==> i == j,
{
    lemma_blank(s);
    assert forall|v: int| 1 <= v <= 15 implies #[trigger] has_tile(s, v) by {
        assert(has_code(s, v));
        let w = choose|i: int| 0 <= i < 16 && code(#[trigger] s[i]) == v;
        assert(s[w] == Cell::Numbered(v as u8));
    }
    assert forall|i: int, j: int|
        0 <= i < 16 && 0 <= j < 16 && #[trigger] s[i] is Numbered && #[trigger] s[j] == s[i]
            implies i == j by {
        if i != j {
            assert(code(s[i]) == code(s[j]));
        }
    }
}

/// A 4x4 grid stored flat in row-major order.
pub struct Grid {
    cells: Vec<Cell>,
}

impl View for Grid {
    type V = Seq<Cell>;

    closed spec fn view(&self) -> Seq<Cell> {
        self.cells@
    }
}

/// The numeric code of a cell, as executable code.
fn cell_code(c: Cell) -> (r: u8)
    ensures
        r as int == code(c),
{
    match c {
        Cell::Empty => 0,
        Cell::Numbered(n) => n,
    }
}

impl Grid {
    /// The canonical solved grid: tiles `1..=15` row-major, blank last.
    pub fn solved() -> (g: Grid)
        ensures
            g@ == solved_seq(),
            wf(g@),
    {
        let mut cells: Vec<Cell> = Vec::new();
        let mut i: usize = 0;
        while i < 15
            invariant
                i <= 15,
                cells@.len() == i,
                forall|j: int| 0 <= j < i ==> cells@[j] == solved_cell(j),
            decreases 15 - i,
        {
            cells.push(Cell::Numbered((i + 1) as u8));
            i += 1;
        }
        cells.push(Cell::Empty);
        proof {
            assert(cells@ =~= solved_seq());
            lemma_solved_wf();
        }
        Grid { cells }
    }

    /// How many cells the grid holds (always 16 for a well-formed grid).
    pub fn cell_count(&self) -> (n: usize)
        ensures
            n == self@.len(),
    {
        self.cells.len()
    }

    /// The cell at flat slot `i`.
    pub fn cell_at(&self, i: usize) -> (c: Cell)
        requires
            i < self@.len(),
        ensures
            c == self@[i as int],
    {
        self.cells[i]
    }

    /// The cell at column `x`, row `y`.
    pub fn cell(&self, x: usize, y: usize) -> (c: Cell)
        requires
            x < 4,
            y < 4,
            self@.len() == 16,
        ensures
            c == self@[4 * y + x],
    {
        self.cells[4 * y + x]
    }

    /// Exchange the cells in slots `a` and `b`.
    pub fn swap_cells(&mut self, a: usize, b: usize)
        requires
            a < old(self)@.len(),
            b < old(self)@.len(),
        ensures
            final(self)@ == swap_seq(old(self)@, a as int, b as int),
    {
        let ca = self.cells[a];
        let cb = self.cells[b];
        self.cells[a] = cb;
        self.cells[b] = ca;
    }

    /// Build a grid from 16 cells, validating well-formedness: the result
    /// is `Some` exactly when the cells are 16 valid entries holding each
    /// tile `1..=15` and the blank once.
    pub fn from_cells(cells: Vec<Cell>) -> (r: Option<Grid>)
        ensures
            match r {
                Some(g) => wf(cells@) && g@ == cells@,
                None => !wf(cells@),
            },
    {
        if cells.len() != 16 {
            return None;
        }
        let mut i: usize = 0;
        while i < 16
            invariant
                cells@.len() == 16,
                i <= 16,
                forall|j: int| 0 <= j < i ==> cell_ok(#[trigger] cells@[j]),
            decreases 16 - i,
        {
            match cells[i] {
                Cell::Empty => {},
                Cell::Numbered(n) => {
                    if n < 1 || n > 15 {
                        return None;
                    }
                },
            }
            i += 1;
        }
        let mut v: u8 = 0;
        while v < 16
            invariant
                cells@.len() == 16,
                v <= 16,
                forall|j: int| 0 <= j < 16 ==> cell_ok(#[trigger] cells@[j]),
                forall|u: int| 0 <= u < v ==> #[trigger] has_code(cells@, u),
                forall|p: int, q: int|
                    0 <= p < 16 && 0 <= q < 16 && p != q && 0 <= code(#[trigger] cells@[p]) < v
                        ==> code(#[trigger] cells@[q]) != code(cells@[p]),
            decreases 16 - v,
        {
            let mut found: bool = false;
            let mut k: usize = 0;
            while k < 16
                invariant
                    cells@.len() == 16,
                    k <= 16,
                    found <==> exists|j: int| 0 <= j < k && code(#[trigger] cells@[j]) == v as int,
                    forall|p: int, q: int|
                        0 <= p < k && 0 <= q < k && p != q && code(#[trigger] cells@[p]) == v as int
                            ==> code(#[trigger] cells@[q]) != v as int,
                decreases 16 - k,
            {
                if cell_code(cells[k]) == v {
                    if found {
                        proof {
                            let j = choose|j: int|
                                0 <= j < k && code(#[trigger] cells@[j]) == v as int;
                            assert(code(cells@[j]) == code(cells@[k as int]));
                        }
                        return None;
                    }
                    found = true;
                }
                k += 1;
            }
            if !found {
                proof {
                    assert(!has_code(cells@, v as int));
                }
                return None;
            }
            v += 1;
        }
        proof {
            assert forall|p: int, q: int|
                0 <= p < 16 && 0 <= q < 16 && p != q implies code(#[trigger] cells@[p]) != code(
                #[trigger] cells@[q],
            ) by {
                assert(cell_ok(cells@[p]));
            }
        }
        Some(Grid { cells })
    }
}

} // verus!
