//! The executable core: the line evaluator, the reachability filter, and
//! the dead-cell classifier, each proved against the spec predicates of
//! [`crate::board`].

use vstd::prelude::*;

use crate::board::CellMark;
use crate::board::Configuration;
use crate::board::Outcome;
use crate::board::cell_dead;
use crate::board::classified;
use crate::board::count_lines_from;
use crate::board::dead_row;
use crate::board::expected_incidence;
use crate::board::incidence;
use crate::board::lemma_blocked_transfer;
use crate::board::lemma_full_line_blocked;
use crate::board::lemma_line_bounds;
use crate::board::line_full;
use crate::board::line_all;
use crate::board::line_blocked;
use crate::board::line_cells;
use crate::board::on_line;
use crate::board::possible;
use crate::board::undecided;
use crate::board::wins;

verus! {

/// The line evaluator: scans the eight winning lines in their fixed order
/// (rows, then columns, then diagonals) and reports the player of the first
/// completed line, or `Undecided` with the board unchanged. Total: it never
/// fails, for any of the 3^9 enumerable boards.
pub fn grid_state(c: Configuration) -> (r: Outcome)
    ensures
        r is Undecided <==> undecided(c@),
        r is Undecided ==> r == Outcome::Undecided(c),
        r == Outcome::WonByA ==> wins(c@, CellMark::MarkA),
        r == Outcome::WonByB ==> wins(c@, CellMark::MarkB),
        r == Outcome::WonByA <==> exists|l: int|
            0 <= l < 8 && line_all(c@, l, CellMark::MarkA) && (forall|j: int|
                0 <= j < l ==> !line_all(c@, j, CellMark::MarkB)),
        r == Outcome::WonByB <==> exists|l: int|
            0 <= l < 8 && line_all(c@, l, CellMark::MarkB) && (forall|j: int|
                0 <= j < l ==> !line_all(c@, j, CellMark::MarkA)),
{
    let mut l: usize = 0;
    while l < 8
        invariant
            l <= 8,
            forall|j: int|
                0 <= j < l ==> !line_all(c@, j, CellMark::MarkA) && !line_all(
                    c@,
                    j,
                    CellMark::MarkB,
                ),
        decreases 8 - l,
    {
        let (x, y, z) = line_cells(l);
        let cx = c.cells[x];
        let cy = c.cells[y];
        let cz = c.cells[z];
        if cx == CellMark::MarkA && cy == CellMark::MarkA && cz == CellMark::MarkA {
            assert(line_all(c@, l as int, CellMark::MarkA));
            return Outcome::WonByA;
        }
        if cx == CellMark::MarkB && cy == CellMark::MarkB && cz == CellMark::MarkB {
            assert(line_all(c@, l as int, CellMark::MarkB));
            return Outcome::WonByB;
        }
        l = l + 1;
    }
    Outcome::Undecided(c)
}

/// The reachability filter: a board is possible only if reverting any one
/// occupied cell to `Empty` leaves a board that neither player has won.
/// A one-move-lookback check, not a full legality oracle: boards whose two
/// mark counts could never alternate are not rejected here. Total: it never
/// fails, for any of the 3^9 enumerable boards.
pub fn is_possible_state(c: Configuration) -> (r: bool)
    ensures
        r == possible(c@),
{
    let mut k: usize = 0;
    while k < 9
        invariant
            k <= 9,
            forall|j: int|
                0 <= j < k && c@[j] != CellMark::Empty ==> undecided(
                    #[trigger] c@.update(j, CellMark::Empty),
                ),
        decreases 9 - k,
    {
        if c.cells[k] != CellMark::Empty {
            let mut tmp = c;
            tmp.cells[k] = CellMark::Empty;
            assert(tmp@ =~= c@.update(k as int, CellMark::Empty));
            match grid_state(tmp) {
                Outcome::Undecided(_) => {},
                _ => {
                    return false;
                },
            }
        }
        k = k + 1;
    }
    true
}

/// One triple of cells is judged blocked when each side is represented on
/// it. A dead cell counts for both sides: whichever mark it held, that side
/// was already represented, and the line through a dead cell is blocked by
/// the very judgment that killed the cell.
pub fn is_dead_row(a: CellMark, b: CellMark, c: CellMark) -> (r: bool)
    ensures
        r == dead_row(a, b, c),
{
    let has_a = a == CellMark::MarkA || a == CellMark::Dead || b == CellMark::MarkA || b
        == CellMark::Dead || c == CellMark::MarkA || c == CellMark::Dead;
    let has_b = a == CellMark::MarkB || a == CellMark::Dead || b == CellMark::MarkB || b
        == CellMark::Dead || c == CellMark::MarkB || c == CellMark::Dead;
    has_a && has_b
}

/// The dead-cell classifier: on an undecided board, marks every dead cell
/// `Dead` — every occupied cell all of whose winning lines are blocked —
/// and leaves all other cells unchanged.
///
/// The input must be undecided, as the line evaluator judges it; callers
/// check that first, and the precondition rules a decided board out
/// statically rather than defining any run-time behavior for it. A board
/// already carrying `Dead` annotations is accepted, and re-classifying
/// changes nothing further (see [`crate::laws::lemma_classify_idempotent`]).
pub fn calculate_dead_cell(c: Configuration) -> (r: Outcome)
    requires
        undecided(c@),
    ensures
        r matches Outcome::Undecided(d) && d@ == classified(c@),
{
    let mut result = c;
    let mut k: usize = 0;
    while k < 9
        invariant
            k <= 9,
            undecided(c@),
            forall|j: int|
                0 <= j < 9 ==> #[trigger] result@[j] == (if j < k && cell_dead(c@, j) {
                    CellMark::Dead
                } else {
                    c@[j]
                }),
        decreases 9 - k,
    {
        let ghost kk: int = k as int;
        let mut all_occupied = true;
        let mut all_blocked = true;
        let mut l: usize = 0;
        while l < 8
            invariant
                l <= 8,
                k < 9,
                all_occupied == (forall|m: int|
                    0 <= m < l && on_line(k as int, m) ==> #[trigger] line_full(result@, m)),
                all_blocked == (forall|m: int|
                    0 <= m < l && on_line(k as int, m) ==> #[trigger] line_blocked(result@, m)),
            decreases 8 - l,
        {
            let (x, y, z) = line_cells(l);
            if x == k || y == k || z == k {
                assert(on_line(k as int, l as int));
                let full = !(result.cells[x] == CellMark::Empty || result.cells[y]
                    == CellMark::Empty || result.cells[z] == CellMark::Empty);
                assert(full == line_full(result@, l as int));
                if !full {
                    all_occupied = false;
                }
                let blocked = is_dead_row(result.cells[x], result.cells[y], result.cells[z]);
                assert(blocked == line_blocked(result@, l as int));
                if !blocked {
                    all_blocked = false;
                }
            } else {
                assert(!on_line(k as int, l as int));
            }
            l = l + 1;
        }
        let occupied_here = result.cells[k] != CellMark::Empty;
        proof {
            // The cells marked so far are exactly the dead cells among the
            // first k, so `result` relates to `c` as the transfer lemma asks.
            assert(forall|j: int| #![auto]
                0 <= j < 9 ==> result@[j] == c@[j] || (result@[j] == CellMark::Dead && cell_dead(
                    c@,
                    j,
                )));
            assert(result@[kk] == c@[kk]);
            // Occupancy is the same on `result` and on `c`.
            assert(forall|j: int| #![auto]
                0 <= j < 9 ==> (result@[j] != CellMark::Empty <==> c@[j] != CellMark::Empty));
            if all_occupied {
                // Cell k lies on its own row, so it is itself occupied, and
                // every line through it is full, hence blocked on the
                // undecided board.
                let lr: int = if kk < 3 {
                    0
                } else if kk < 6 {
                    1
                } else {
                    2
                };
                assert(on_line(kk, lr));
                assert(line_full(result@, lr));
                assert(c@[kk] != CellMark::Empty);
                assert forall|m: int| 0 <= m < 8 && on_line(kk, m) implies #[trigger] line_blocked(
                    c@,
                    m,
                ) by {
                    assert(line_full(result@, m));
                    lemma_line_bounds(m);
                    assert(line_full(c@, m));
                    lemma_full_line_blocked(c@, m);
                }
                assert(cell_dead(c@, kk));
            }
            if occupied_here && all_blocked {
                assert forall|m: int| 0 <= m < 8 && on_line(kk, m) implies #[trigger] line_blocked(
                    c@,
                    m,
                ) by {
                    assert(line_blocked(result@, m));
                    lemma_blocked_transfer(c@, result@, m);
                }
                assert(cell_dead(c@, kk));
            }
            if cell_dead(c@, kk) {
                assert(occupied_here);
                assert forall|m: int| 0 <= m < 8 && on_line(kk, m) implies #[trigger] line_blocked(
                    result@,
                    m,
                ) by {
                    assert(line_blocked(c@, m));
                    lemma_blocked_transfer(c@, result@, m);
                }
                assert(all_blocked);
            }
        }
        if all_occupied || (occupied_here && all_blocked) {
            result.cells[k] = CellMark::Dead;
        }
        k = k + 1;
    }
    proof {
        assert(result@ =~= classified(c@));
    }
    Outcome::Undecided(result)
}

/// How many winning lines pass through cell `k`, derived by scanning the
/// line table: three for each corner, two for each edge midpoint, four for
/// the center.
pub fn incident_line_count(k: usize) -> (n: usize)
    requires
        k < 9,
    ensures
        n as nat == incidence(k as int),
        n as nat == expected_incidence(k as int),
{
    let mut n: usize = 0;
    let mut l: usize = 0;
    while l < 8
        invariant
            l <= 8,
            k < 9,
            n <= l,
            incidence(k as int) == n + count_lines_from(k as int, l as int),
        decreases 8 - l,
    {
        let (x, y, z) = line_cells(l);
        proof {
            assert(count_lines_from(k as int, l as int) == (if on_line(k as int, l as int) {
                1nat
            } else {
                0nat
            }) + count_lines_from(k as int, l as int + 1));
        }
        if x == k || y == k || z == k {
            assert(on_line(k as int, l as int));
            n = n + 1;
        } else {
            assert(!on_line(k as int, l as int));
        }
        l = l + 1;
    }
    proof {
        assert(count_lines_from(k as int, 8) == 0);
        crate::laws::lemma_cell_incidence();
    }
    n
}

} // verus!
