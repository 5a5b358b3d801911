//! The fixed square board and arithmetic on its cells.
//!
//! A cell is a pair `(x, y)` of unsigned coordinates; `x` grows to the right
//! and `y` grows downwards.

use vstd::prelude::*;
use vstd::seq_lib::seq_to_set_is_finite;
use vstd::set_lib::lemma_len_subset;

verus! {

/// Side length of the board, in cells.
pub const BOARD_SIZE: u16 = 20;

/// Whether a cell lies on the board.
pub open spec fn on_board(c: (u16, u16)) -> bool {
    c.0 < BOARD_SIZE && c.1 < BOARD_SIZE
}

/// Whether two cells are orthogonal neighbours: one step apart on exactly one axis.
pub open spec fn adjacent(a: (u16, u16), b: (u16, u16)) -> bool {
    ||| a.0 == b.0 && (a.1 + 1 == b.1 || b.1 + 1 == a.1)
    ||| a.1 == b.1 && (a.0 + 1 == b.0 || b.0 + 1 == a.0)
}

/// One coordinate moved by a signed amount and held inside the range of `u16`.
pub open spec fn shift_axis(v: int, d: int) -> int {
    if v + d < 0 {
        0
    } else if v + d > u16::MAX {
        u16::MAX as int
    } else {
        v + d
    }
}

/// A cell moved by a vector, each coordinate held inside the range of `u16`.
pub open spec fn shifted(c: (u16, u16), d: (int, int)) -> (u16, u16) {
    (shift_axis(c.0 as int, d.0) as u16, shift_axis(c.1 as int, d.1) as u16)
}

/// Every cell of the board, column by column: `(0, 0)`, `(0, 1)`, ..., `(19, 19)`.
pub open spec fn board_cells() -> Seq<(u16, u16)> {
    Seq::new(
        (BOARD_SIZE * BOARD_SIZE) as nat,
        |i: int| ((i / BOARD_SIZE as int) as u16, (i % BOARD_SIZE as int) as u16),
    )
}

/// The test that a cell is none of `taken`.
pub open spec fn untaken(taken: Seq<(u16, u16)>) -> spec_fn((u16, u16)) -> bool {
    |c: (u16, u16)| !taken.contains(c)
}

/// The cells of the board that `taken` does not hold, in the order of `board_cells`.
pub open spec fn free_cells(taken: Seq<(u16, u16)>) -> Seq<(u16, u16)> {
    board_cells().filter(untaken(taken))
}

/// Whether `taken` holds every cell of the board.
pub open spec fn board_full(taken: Seq<(u16, u16)>) -> bool {
    forall|c: (u16, u16)| on_board(c) ==> #[trigger] taken.contains(c)
}

/// `board_cells` holds the cells of the board, each once, and no other cell.
pub proof fn lemma_board_cells()
    ensures
        board_cells().len() == BOARD_SIZE * BOARD_SIZE,
        board_cells().no_duplicates(),
        forall|c: (u16, u16)| #[trigger] board_cells().contains(c) <==> on_board(c),
{
    let cells = board_cells();
    assert forall|c: (u16, u16)| #[trigger] cells.contains(c) <==> on_board(c) by {
        if on_board(c) {
            let i = c.0 * BOARD_SIZE + c.1;
            assert(cells[i] == c);
        }
    }
}

/// `free_cells(taken)` holds each cell of the board that is none of `taken`
/// once, and no other cell. It is empty just when `taken` fills the board.
pub proof fn lemma_free_cells(taken: Seq<(u16, u16)>)
    ensures
        free_cells(taken).no_duplicates(),
        forall|c: (u16, u16)| #[trigger]
            free_cells(taken).contains(c) <==> on_board(c) && !taken.contains(c),
        free_cells(taken).len() == 0 <==> board_full(taken),
{
    let cells = board_cells();
    let pred = untaken(taken);
    let free = free_cells(taken);
    lemma_board_cells();
    lemma_filter_distinct(cells, pred);
    assert forall|c: (u16, u16)| #[trigger] free.contains(c) <==> on_board(c) && !taken.contains(
        c,
    ) by {
        if free.contains(c) {
            let i = choose|i: int| 0 <= i < free.len() && free[i] == c;
            cells.lemma_filter_pred(pred, i);
            cells.lemma_filter_contains_rev(pred, c);
        }
        if on_board(c) && !taken.contains(c) {
            assert(cells.contains(c));
            let i = choose|i: int| 0 <= i < cells.len() && cells[i] == c;
            cells.lemma_filter_contains(pred, i);
        }
    }
    if free.len() == 0 {
        assert forall|c: (u16, u16)| on_board(c) implies #[trigger] taken.contains(c) by {
            if !taken.contains(c) {
                assert(free.contains(c));
            }
        }
    } else {
        assert(free.contains(free[0]));
    }
}

/// Fewer cells than the board has cannot fill it.
pub proof fn lemma_room_left(taken: Seq<(u16, u16)>)
    requires
        taken.len() < BOARD_SIZE * BOARD_SIZE,
    ensures
        !board_full(taken),
        free_cells(taken).len() > 0,
{
    let cells = board_cells();
    lemma_board_cells();
    lemma_free_cells(taken);
    if board_full(taken) {
        assert forall|c: (u16, u16)| cells.to_set().contains(c) implies taken.to_set().contains(
            c,
        ) by {
            assert(cells.contains(c));
            assert(taken.contains(c));
        }
        cells.unique_seq_to_set();
        taken.lemma_cardinality_of_set();
        seq_to_set_is_finite(taken);
        lemma_len_subset(cells.to_set(), taken.to_set());
    }
}

/// What is left of a sequence without repeats has no repeats.
proof fn lemma_filter_distinct(s: Seq<(u16, u16)>, pred: spec_fn((u16, u16)) -> bool)
    requires
        s.no_duplicates(),
    ensures
        s.filter(pred).no_duplicates(),
    decreases s.len(),
{
    reveal(Seq::filter);
    if s.len() > 0 {
        let rest = s.drop_last();
        lemma_filter_distinct(rest, pred);
        if pred(s.last()) {
            let kept = rest.filter(pred);
            if kept.contains(s.last()) {
                rest.lemma_filter_contains_rev(pred, s.last());
                let i = choose|i: int| 0 <= i < rest.len() && rest[i] == s.last();
                assert(s[i] == s[s.len() - 1]);
            }
            assert forall|i: int, j: int|
                0 <= i < kept.len() + 1 && 0 <= j < kept.len() + 1 && i != j implies kept.push(
                s.last(),
            )[i] != kept.push(s.last())[j] by {
                if i < kept.len() {
                    assert(kept.contains(kept[i]));
                }
                if j < kept.len() {
                    assert(kept.contains(kept[j]));
                }
            }
        }
    }
}

/// Tells whether a cell lies on the board.
pub fn is_on_board(c: (u16, u16)) -> (r: bool)
    ensures
        r == on_board(c),
{
    c.0 < BOARD_SIZE && c.1 < BOARD_SIZE
}

/// Tells whether two cells are orthogonal neighbours.
pub fn is_adjacent(a: (u16, u16), b: (u16, u16)) -> (r: bool)
    ensures
        r == adjacent(a, b),
{
    (a.0 == b.0 && ((a.1 < b.1 && b.1 - a.1 == 1) || (b.1 < a.1 && a.1 - b.1 == 1))) || (a.1 == b.1
        && ((a.0 < b.0 && b.0 - a.0 == 1) || (b.0 < a.0 && a.0 - b.0 == 1)))
}

/// Moves one coordinate by a signed amount, saturating at both ends of `u16`.
pub fn offset(v: u16, d: i16) -> (r: u16)
    ensures
        r == shift_axis(v as int, d as int),
{
    match v.checked_add_signed(d) {
        Some(r) => r,
        None => if d < 0 {
            0
        } else {
            u16::MAX
        },
    }
}

/// Moves a cell by a vector, saturating each coordinate.
pub fn offset_cell(c: (u16, u16), d: (i16, i16)) -> (r: (u16, u16))
    ensures
        r == shifted(c, (d.0 as int, d.1 as int)),
{
    (offset(c.0, d.0), offset(c.1, d.1))
}

/// Tells whether `cells` holds `c`.
pub fn holds(cells: &Vec<(u16, u16)>, c: (u16, u16)) -> (found: bool)
    ensures
        found == cells@.contains(c),
{
    let mut i: usize = 0;
    while i < cells.len()
        invariant
            i <= cells.len(),
            forall|k: int| 0 <= k < i ==> cells@[k] != c,
        decreases cells.len() - i,
    {
        let cell = cells[i];
        if cell.0 == c.0 && cell.1 == c.1 {
            assert(cells@[i as int] == c);
            return true;
        }
        i += 1;
    }
    false
}

} // verus!
