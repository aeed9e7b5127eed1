//! The data model: cells, boards, outcomes, the winning-line table, and the
//! spec-level predicates that the executable functions are proved against.

use vstd::prelude::*;

verus! {

/// One cell of the 3x3 grid.
///
/// `Dead` appears only in classifier output, never in enumerated input: it
/// marks an occupied cell whose mark can no longer decide the game, because
/// every winning line through it is already blocked by both players.
#[derive(Clone, Copy, PartialEq, Eq, Structural, Debug)]
pub enum CellMark {
    Empty,
    MarkA,
    MarkB,
    Dead,
}

/// A full 3x3 board: nine cells in row-major order (rows top to bottom,
/// each row left to right).
#[derive(Clone, Copy, PartialEq, Eq, Debug)]
pub struct Configuration {
    pub cells: [CellMark; 9],
}

impl View for Configuration {
    type V = Seq<CellMark>;

    open spec fn view(&self) -> Seq<CellMark> {
        self.cells@
    }
}

/// The verdict on a board: a completed winning line for one of the players,
/// or an undecided board (whose cells may carry `Dead` annotations).
#[derive(Clone, Copy, PartialEq, Eq, Debug)]
pub enum Outcome {
    WonByA,
    WonByB,
    Undecided(Configuration),
}

/// The cell indices of winning line `l`: the three rows, then the three
/// columns, then the two diagonals, in that fixed order.
pub open spec fn line(l: int) -> (int, int, int) {
    if l == 0 {
        (0, 1, 2)
    } else if l == 1 {
        (3, 4, 5)
    } else if l == 2 {
        (6, 7, 8)
    } else if l == 3 {
        (0, 3, 6)
    } else if l == 4 {
        (1, 4, 7)
    } else if l == 5 {
        (2, 5, 8)
    } else if l == 6 {
        (0, 4, 8)
    } else {
        (2, 4, 6)
    }
}

/// The winning-line table, as executable code: the cell indices of line `l`.
pub fn line_cells(l: usize) -> (r: (usize, usize, usize))
    requires
        l < 8,
    ensures
        (r.0 as int, r.1 as int, r.2 as int) == line(l as int),
        r.0 < 9,
        r.1 < 9,
        r.2 < 9,
{
    if l == 0 {
        (0, 1, 2)
    } else if l == 1 {
        (3, 4, 5)
    } else if l == 2 {
        (6, 7, 8)
    } else if l == 3 {
        (0, 3, 6)
    } else if l == 4 {
        (1, 4, 7)
    } else if l == 5 {
        (2, 5, 8)
    } else if l == 6 {
        (0, 4, 8)
    } else {
        (2, 4, 6)
    }
}

/// Line `l` is completely occupied by mark `m`.
pub open spec fn line_all(s: Seq<CellMark>, l: int, m: CellMark) -> bool {
    &&& s[line(l).0] == m
    &&& s[line(l).1] == m
    &&& s[line(l).2] == m
}

/// Mark `m` has some completed winning line on board `s`.
pub open spec fn wins(s: Seq<CellMark>, m: CellMark) -> bool {
    exists|l: int| 0 <= l < 8 && line_all(s, l, m)
}

/// Neither player has a completed winning line.
pub open spec fn undecided(s: Seq<CellMark>) -> bool {
    &&& !wins(s, CellMark::MarkA)
    &&& !wins(s, CellMark::MarkB)
}

/// One-move-lookback reachability: for every occupied cell, reverting that
/// cell alone to `Empty` leaves a board that neither player has won. A board
/// failing this stands one move *after* a completed line, where play would
/// already have stopped, so it can never arise from sequential play.
pub open spec fn possible(s: Seq<CellMark>) -> bool {
    forall|k: int|
        0 <= k < 9 && s[k] != CellMark::Empty ==> undecided(
            #[trigger] s.update(k, CellMark::Empty),
        )
}

/// `m` stands on player A's side when judging a blocked line: a live A mark,
/// or a dead cell, which kept whichever mark it had before dying.
pub open spec fn counts_for_a(m: CellMark) -> bool {
    m == CellMark::MarkA || m == CellMark::Dead
}

/// `m` stands on player B's side when judging a blocked line.
pub open spec fn counts_for_b(m: CellMark) -> bool {
    m == CellMark::MarkB || m == CellMark::Dead
}

/// A blocked triple of cells: it holds at least one cell from each side, so
/// the line through them can never be completed by either player.
pub open spec fn dead_row(a: CellMark, b: CellMark, c: CellMark) -> bool {
    &&& (counts_for_a(a) || counts_for_a(b) || counts_for_a(c))
    &&& (counts_for_b(a) || counts_for_b(b) || counts_for_b(c))
}

/// Winning line `l` of board `s` is blocked.
pub open spec fn line_blocked(s: Seq<CellMark>, l: int) -> bool {
    dead_row(s[line(l).0], s[line(l).1], s[line(l).2])
}

/// Cell `k` lies on winning line `l`.
pub open spec fn on_line(k: int, l: int) -> bool {
    line(l).0 == k || line(l).1 == k || line(l).2 == k
}

/// A dead cell: occupied, and every winning line through it is blocked, so
/// its mark can no longer influence the outcome.
pub open spec fn cell_dead(s: Seq<CellMark>, k: int) -> bool {
    &&& s[k] != CellMark::Empty
    &&& forall|l: int| 0 <= l < 8 && on_line(k, l) ==> #[trigger] line_blocked(s, l)
}

/// The classified board: every dead cell marked `Dead`, all other cells
/// unchanged.
pub open spec fn classified(s: Seq<CellMark>) -> Seq<CellMark> {
    Seq::new(s.len(), |k: int| if cell_dead(s, k) { CellMark::Dead } else { s[k] })
}

/// The board with every empty cell tentatively filled with mark `m`.
pub open spec fn fill_empties(s: Seq<CellMark>, m: CellMark) -> Seq<CellMark> {
    Seq::new(s.len(), |k: int| if s[k] == CellMark::Empty { m } else { s[k] })
}

/// The all-dead shortcut of the exhaustive fill-in strategy: even granting
/// one player every empty cell at once completes no line for that player, so
/// no occupied cell can still matter.
pub open spec fn all_dead_shortcut(s: Seq<CellMark>) -> bool {
    &&& !wins(fill_empties(s, CellMark::MarkA), CellMark::MarkA)
    &&& !wins(fill_empties(s, CellMark::MarkB), CellMark::MarkB)
}

/// The exhaustive fill-in strategy's verdict on cell `k`: under the all-dead
/// shortcut every occupied cell is dead; otherwise each cell is judged by
/// its own lines.
pub open spec fn strategy_one_dead(s: Seq<CellMark>, k: int) -> bool {
    if all_dead_shortcut(s) {
        s[k] != CellMark::Empty
    } else {
        cell_dead(s, k)
    }
}

/// How many of the winning lines with index at least `l` pass through
/// cell `k`.
pub open spec fn count_lines_from(k: int, l: int) -> nat
    decreases 8 - l,
{
    if l < 0 || l >= 8 {
        0
    } else {
        (if on_line(k, l) {
            1nat
        } else {
            0nat
        }) + count_lines_from(k, l + 1)
    }
}

/// How many winning lines pass through cell `k`.
pub open spec fn incidence(k: int) -> nat {
    count_lines_from(k, 0)
}

/// The hand-written incidence table: each corner lies on three winning
/// lines (its row, its column, one diagonal), each edge midpoint on two
/// (its row and its column), and the center on four (its row, its column,
/// and both diagonals).
pub open spec fn expected_incidence(k: int) -> nat {
    if k == 4 {
        4
    } else if k == 0 || k == 2 || k == 6 || k == 8 {
        3
    } else {
        2
    }
}

/// Winning line `l` of board `s` is fully occupied.
pub open spec fn line_full(s: Seq<CellMark>, l: int) -> bool {
    &&& s[line(l).0] != CellMark::Empty
    &&& s[line(l).1] != CellMark::Empty
    &&& s[line(l).2] != CellMark::Empty
}

/// Every index of the winning-line table is a cell index.
pub proof fn lemma_line_bounds(l: int)
    requires
        0 <= l < 8,
    ensures
        0 <= line(l).0 < 9,
        0 <= line(l).1 < 9,
        0 <= line(l).2 < 9,
{
}

/// Whether a line is blocked is the same question on a board and on any
/// annotation of it that turned only dead cells into `Dead`: a `Dead` cell
/// counts for both sides, and a cell may only be turned `Dead` when every
/// line through it — this one included — was blocked already.
pub proof fn lemma_blocked_transfer(s: Seq<CellMark>, r: Seq<CellMark>, l: int)
    requires
        s.len() == 9,
        r.len() == 9,
        0 <= l < 8,
        forall|j: int| #![auto]
            0 <= j < 9 ==> r[j] == s[j] || (r[j] == CellMark::Dead && cell_dead(s, j)),
    ensures
        line_blocked(r, l) == line_blocked(s, l),
{
    lemma_line_bounds(l);
    let x = line(l).0;
    let y = line(l).1;
    let z = line(l).2;
    assert(on_line(x, l) && on_line(y, l) && on_line(z, l));
    if r[x] != s[x] {
        assert(cell_dead(s, x));
        assert(line_blocked(s, l));
    }
    if r[y] != s[y] {
        assert(cell_dead(s, y));
        assert(line_blocked(s, l));
    }
    if r[z] != s[z] {
        assert(cell_dead(s, z));
        assert(line_blocked(s, l));
    }
}

/// On an undecided board, a fully occupied line is blocked: it is not
/// uniform in either mark, so both sides are represented on it.
pub proof fn lemma_full_line_blocked(s: Seq<CellMark>, l: int)
    requires
        s.len() == 9,
        undecided(s),
        0 <= l < 8,
        line_full(s, l),
    ensures
        line_blocked(s, l),
{
    lemma_line_bounds(l);
    assert(!line_all(s, l, CellMark::MarkA));
    assert(!line_all(s, l, CellMark::MarkB));
}

} // verus!
