//! The library's general laws, each stated over every board at once and
//! proved from the spec predicates of [`crate::board`].

use vstd::prelude::*;

use crate::board::CellMark;
use crate::board::all_dead_shortcut;
use crate::board::cell_dead;
use crate::board::classified;
use crate::board::count_lines_from;
use crate::board::counts_for_a;
use crate::board::counts_for_b;
use crate::board::expected_incidence;
use crate::board::fill_empties;
use crate::board::incidence;
use crate::board::lemma_blocked_transfer;
use crate::board::lemma_line_bounds;
use crate::board::line;
use crate::board::line_all;
use crate::board::line_blocked;
use crate::board::on_line;
use crate::board::possible;
use crate::board::strategy_one_dead;
use crate::board::undecided;
use crate::board::wins;

verus! {

/// A board that passes the reachability filter cannot hold completed lines
/// for both players at once. Two completed lines of opposite marks would be
/// disjoint — a shared cell would have to carry both marks — so reverting a
/// cell of one line still leaves the other complete, and the one-move
/// lookback would have rejected the board.
pub proof fn lemma_possible_excludes_double_win(s: Seq<CellMark>)
    requires
        s.len() == 9,
        possible(s),
    ensures
        !(wins(s, CellMark::MarkA) && wins(s, CellMark::MarkB)),
{
    if wins(s, CellMark::MarkA) && wins(s, CellMark::MarkB) {
        let la = choose|l: int| 0 <= l < 8 && line_all(s, l, CellMark::MarkA);
        let lb = choose|l: int| 0 <= l < 8 && line_all(s, l, CellMark::MarkB);
        lemma_line_bounds(la);
        lemma_line_bounds(lb);
        let k = line(la).0;
        assert(s[k] == CellMark::MarkA);
        let t = s.update(k, CellMark::Empty);
        assert(undecided(t));
        assert(t[line(lb).0] == CellMark::MarkB && t[line(lb).1] == CellMark::MarkB && t[line(
            lb,
        ).2] == CellMark::MarkB);
        assert(line_all(t, lb, CellMark::MarkB));
        assert(wins(t, CellMark::MarkB));
    }
}

/// Classification is idempotent: on the classifier's own output — prior
/// `Dead` cells kept as they stand — no cell flips back and no further cell
/// becomes dead.
pub proof fn lemma_classify_idempotent(s: Seq<CellMark>)
    requires
        s.len() == 9,
    ensures
        classified(classified(s)) == classified(s),
{
    let r = classified(s);
    assert(forall|j: int| #![auto]
        0 <= j < 9 ==> r[j] == s[j] || (r[j] == CellMark::Dead && cell_dead(s, j)));
    assert forall|k: int| 0 <= k < 9 implies #[trigger] cell_dead(r, k) == cell_dead(s, k) by {
        if cell_dead(s, k) {
            assert(r[k] == CellMark::Dead);
            assert forall|m: int| 0 <= m < 8 && on_line(k, m) implies #[trigger] line_blocked(
                r,
                m,
            ) by {
                assert(line_blocked(s, m));
                lemma_blocked_transfer(s, r, m);
            }
            assert(cell_dead(r, k));
        } else if cell_dead(r, k) {
            assert(r[k] == s[k]);
            assert forall|m: int| 0 <= m < 8 && on_line(k, m) implies #[trigger] line_blocked(
                s,
                m,
            ) by {
                assert(line_blocked(r, m));
                lemma_blocked_transfer(s, r, m);
            }
            assert(cell_dead(s, k));
        }
    }
    assert(classified(r) =~= r);
}

/// Classification preserves undecidedness: a uniform line in the output
/// would consist of cells the classifier left unchanged, so the line was
/// already uniform in the input.
pub proof fn lemma_classified_undecided(s: Seq<CellMark>)
    requires
        s.len() == 9,
        undecided(s),
    ensures
        undecided(classified(s)),
{
    let r = classified(s);
    if wins(r, CellMark::MarkA) {
        let l = choose|l: int| 0 <= l < 8 && line_all(r, l, CellMark::MarkA);
        lemma_line_bounds(l);
        assert(s[line(l).0] == CellMark::MarkA);
        assert(s[line(l).1] == CellMark::MarkA);
        assert(s[line(l).2] == CellMark::MarkA);
        assert(line_all(s, l, CellMark::MarkA));
        assert(wins(s, CellMark::MarkA));
    }
    if wins(r, CellMark::MarkB) {
        let l = choose|l: int| 0 <= l < 8 && line_all(r, l, CellMark::MarkB);
        lemma_line_bounds(l);
        assert(s[line(l).0] == CellMark::MarkB);
        assert(s[line(l).1] == CellMark::MarkB);
        assert(s[line(l).2] == CellMark::MarkB);
        assert(line_all(s, l, CellMark::MarkB));
        assert(wins(s, CellMark::MarkB));
    }
}

/// The all-dead shortcut holds exactly when every winning line is blocked:
/// a line that even the most generous fill-in cannot complete for either
/// player already carries a cell from each side, and conversely.
pub proof fn lemma_shortcut_iff_all_blocked(s: Seq<CellMark>)
    requires
        s.len() == 9,
    ensures
        all_dead_shortcut(s) == (forall|l: int| 0 <= l < 8 ==> #[trigger] line_blocked(s, l)),
{
    let fa = fill_empties(s, CellMark::MarkA);
    let fb = fill_empties(s, CellMark::MarkB);
    if all_dead_shortcut(s) {
        assert forall|l: int| 0 <= l < 8 implies #[trigger] line_blocked(s, l) by {
            lemma_line_bounds(l);
            let x = line(l).0;
            let y = line(l).1;
            let z = line(l).2;
            assert(!line_all(fa, l, CellMark::MarkA));
            assert(!line_all(fb, l, CellMark::MarkB));
            assert(fa[x] == (if s[x] == CellMark::Empty {
                CellMark::MarkA
            } else {
                s[x]
            }));
            assert(fa[y] == (if s[y] == CellMark::Empty {
                CellMark::MarkA
            } else {
                s[y]
            }));
            assert(fa[z] == (if s[z] == CellMark::Empty {
                CellMark::MarkA
            } else {
                s[z]
            }));
            assert(fb[x] == (if s[x] == CellMark::Empty {
                CellMark::MarkB
            } else {
                s[x]
            }));
            assert(fb[y] == (if s[y] == CellMark::Empty {
                CellMark::MarkB
            } else {
                s[y]
            }));
            assert(fb[z] == (if s[z] == CellMark::Empty {
                CellMark::MarkB
            } else {
                s[z]
            }));
        }
    } else {
        if wins(fa, CellMark::MarkA) {
            let l = choose|l: int| 0 <= l < 8 && line_all(fa, l, CellMark::MarkA);
            lemma_line_bounds(l);
            assert(fa[line(l).0] == CellMark::MarkA);
            assert(fa[line(l).1] == CellMark::MarkA);
            assert(fa[line(l).2] == CellMark::MarkA);
            assert(!counts_for_b(s[line(l).0]));
            assert(!counts_for_b(s[line(l).1]));
            assert(!counts_for_b(s[line(l).2]));
            assert(!line_blocked(s, l));
        } else {
            let l = choose|l: int| 0 <= l < 8 && line_all(fb, l, CellMark::MarkB);
            lemma_line_bounds(l);
            assert(fb[line(l).0] == CellMark::MarkB);
            assert(fb[line(l).1] == CellMark::MarkB);
            assert(fb[line(l).2] == CellMark::MarkB);
            assert(!counts_for_a(s[line(l).0]));
            assert(!counts_for_a(s[line(l).1]));
            assert(!counts_for_a(s[line(l).2]));
            assert(!line_blocked(s, l));
        }
    }
}

/// Strategy equivalence: on every board, the exhaustive fill-in strategy
/// (all-dead shortcut, then per-cell judgment) and the per-cell line-mix
/// strategy mark exactly the same cells dead.
pub proof fn lemma_strategies_agree(s: Seq<CellMark>)
    requires
        s.len() == 9,
    ensures
        forall|k: int| 0 <= k < 9 ==> #[trigger] strategy_one_dead(s, k) == cell_dead(s, k),
{
    lemma_shortcut_iff_all_blocked(s);
    if all_dead_shortcut(s) {
        assert forall|k: int| 0 <= k < 9 implies #[trigger] strategy_one_dead(s, k) == cell_dead(
            s,
            k,
        ) by {
            if s[k] != CellMark::Empty {
                assert(cell_dead(s, k));
            }
        }
    }
}

/// Cell incidence: the count of winning lines through each cell, derived
/// from the line table, matches the hand-written table — three for each
/// corner, two for each edge midpoint, four for the center.
pub proof fn lemma_cell_incidence()
    ensures
        forall|k: int| 0 <= k < 9 ==> #[trigger] incidence(k) == expected_incidence(k),
{
    reveal_with_fuel(count_lines_from, 10);
    assert forall|k: int| 0 <= k < 9 implies #[trigger] incidence(k) == expected_incidence(k) by {
        reveal_with_fuel(count_lines_from, 10);
        if k == 0 {
            assert(incidence(0) == 3);
        } else if k == 1 {
            assert(incidence(1) == 2);
        } else if k == 2 {
            assert(incidence(2) == 3);
        } else if k == 3 {
            assert(incidence(3) == 2);
        } else if k == 4 {
            assert(incidence(4) == 4);
        } else if k == 5 {
            assert(incidence(5) == 2);
        } else if k == 6 {
            assert(incidence(6) == 3);
        } else if k == 7 {
            assert(incidence(7) == 2);
        } else {
            assert(incidence(8) == 3);
        }
    }
}

} // verus!
