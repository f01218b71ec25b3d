use vstd::prelude::*;

use crate::piece::{pair, pivot_fits, placed, Piece, MAX_OFFSET};

verus! {

/// Board width in cells.
pub const WIDTH: usize = 10;

/// Board height in cells; row 0 is the top.
pub const HEIGHT: usize = 20;

/// The grid of locked cells, indexed `cells[y][x]`.
#[derive(Clone, Copy, Debug, PartialEq, Eq)]
pub struct Board {
    pub cells: [[bool; WIDTH]; HEIGHT],
}

/// A query or write outside the grid.
#[derive(Clone, Copy, Debug, PartialEq, Eq)]
pub enum BoardError {
    OutOfRange,
}

/// Whether (x, y) lies on the grid.
pub open spec fn in_board(x: int, y: int) -> bool {
    0 <= x < WIDTH && 0 <= y < HEIGHT
}

/// A row with every cell occupied.
pub open spec fn full_row(row: Seq<bool>) -> bool {
    forall|x: int| 0 <= x < row.len() ==> #[trigger] row[x]
}

/// A row with no occupied cell.
pub open spec fn empty_row() -> Seq<bool> {
    Seq::new(WIDTH as nat, |x: int| false)
}

/// The rows that are not full, top to bottom, in their order.
pub open spec fn surviving(rows: Seq<Seq<bool>>) -> Seq<Seq<bool>>
    decreases rows.len(),
{
    if rows.len() == 0 {
        rows
    } else if full_row(rows[0]) {
        surviving(rows.drop_first())
    } else {
        seq![rows[0]] + surviving(rows.drop_first())
    }
}

/// The grid after removing its full rows: empty rows on top, then the
/// surviving rows in their order.
pub open spec fn compacted(rows: Seq<Seq<bool>>) -> Seq<Seq<bool>> {
    Seq::new((rows.len() - surviving(rows).len()) as nat, |i: int| empty_row()) + surviving(rows)
}

/// The grid with (x, y) marked occupied.
pub open spec fn set_cell(rows: Seq<Seq<bool>>, x: int, y: int) -> Seq<Seq<bool>> {
    rows.update(y, rows[y].update(x, true))
}

/// How many cells of a piece are written when it locks: those before the
/// first one at row 0 or above the board.
pub open spec fn lock_count(cells: Seq<(int, int)>) -> int {
    if cells[0].1 <= 0 {
        0
    } else if cells[1].1 <= 0 {
        1
    } else if cells[2].1 <= 0 {
        2
    } else if cells[3].1 <= 0 {
        3
    } else {
        4
    }
}

/// The grid after writing the first `n` cells; cells off the grid are skipped.
pub open spec fn locked(rows: Seq<Seq<bool>>, cells: Seq<(int, int)>, n: int) -> Seq<Seq<bool>>
    decreases n,
{
    if n <= 0 {
        rows
    } else {
        let prev = locked(rows, cells, n - 1);
        let c = cells[n - 1];
        if in_board(c.0, c.1) {
            set_cell(prev, c.0, c.1)
        } else {
            prev
        }
    }
}

impl View for Board {
    type V = Seq<Seq<bool>>;

    open spec fn view(&self) -> Seq<Seq<bool>> {
        Seq::new(HEIGHT as nat, |y: int| self.cells[y]@)
    }
}

proof fn lemma_surviving_len(rows: Seq<Seq<bool>>)
    ensures
        surviving(rows).len() <= rows.len(),
        forall|i: int| 0 <= i < surviving(rows).len() ==> !full_row(#[trigger] surviving(rows)[i]),
        forall|i: int| 0 <= i < surviving(rows).len() ==> exists|j: int| 0 <= j < rows.len() && rows[j] == #[trigger] surviving(rows)[i],
    decreases rows.len(),
{
    if rows.len() > 0 {
        lemma_surviving_len(rows.drop_first());
        let t = surviving(rows.drop_first());
        assert forall|i: int| 0 <= i < surviving(rows).len() implies exists|j: int| 0 <= j < rows.len() && rows[j] == #[trigger] surviving(rows)[i] by {
            if full_row(rows[0]) {
                let j = choose|j: int| 0 <= j < rows.drop_first().len() && rows.drop_first()[j] == t[i];
                assert(rows[j + 1] == surviving(rows)[i]);
            } else if i == 0 {
                assert(rows[0] == surviving(rows)[i]);
            } else {
                let j = choose|j: int| 0 <= j < rows.drop_first().len() && rows.drop_first()[j] == t[i - 1];
                assert(rows[j + 1] == surviving(rows)[i]);
            }
        }
    }
}

/// Whether every cell of the row is occupied.
fn row_is_full(row: &[bool; WIDTH]) -> (r: bool)
    ensures
        r == full_row(row@),
{
    let mut x: usize = 0;
    while x < WIDTH
        invariant
            0 <= x <= WIDTH,
            forall|k: int| 0 <= k < x ==> #[trigger] row@[k],
        decreases WIDTH - x,
    {
        if !row[x] {
            return false;
        }
        x = x + 1;
    }
    true
}

impl Board {
    /// Whether (x, y) is a locked cell of the grid.
    pub open spec fn occupied(&self, x: int, y: int) -> bool {
        self.cells[y][x]
    }

    /// An empty board.
    pub fn new() -> (r: Board)
        ensures
            r@ == Seq::new(HEIGHT as nat, |y: int| empty_row()),
    {
        let r = Board { cells: [[false; WIDTH]; HEIGHT] };
        assert(r@ =~= Seq::new(HEIGHT as nat, |y: int| empty_row())) by {
            assert forall|y: int| 0 <= y < HEIGHT implies r@[y] =~= empty_row() by {}
        }
        r
    }

    /// The content of (x, y); an error outside the grid.
    pub fn try_get(&self, x: i32, y: i32) -> (r: Result<bool, BoardError>)
        ensures
            r is Ok <==> in_board(x as int, y as int),
            r is Ok ==> r->Ok_0 == self.occupied(x as int, y as int),
    {
        if 0 <= x && (x as usize) < WIDTH && 0 <= y && (y as usize) < HEIGHT {
            Ok(self.cells[y as usize][x as usize])
        } else {
            Err(BoardError::OutOfRange)
        }
    }

    /// Whether (x, y) blocks a piece: a locked cell, or any place off the grid.
    pub fn is_occupied(&self, x: i32, y: i32) -> (r: bool)
        ensures
            r == (!in_board(x as int, y as int) || self.occupied(x as int, y as int)),
    {
        match self.try_get(x, y) {
            Ok(v) => v,
            Err(_) => true,
        }
    }

    /// Removes every full row; the rows above move down and empty rows come
    /// in at the top. Returns the number of rows removed.
    pub fn clear_full_rows(&mut self) -> (r: usize)
        ensures
            final(self)@ == compacted(old(self)@),
            r == HEIGHT - surviving(old(self)@).len(),
    {
        let ghost start = self@;
        let mut w: usize = HEIGHT;
        let mut r: usize = HEIGHT;
        while r > 0
            invariant
                0 <= r <= w <= HEIGHT,
                start.len() == HEIGHT,
                self@.subrange(w as int, HEIGHT as int) == surviving(start.subrange(r as int, HEIGHT as int)),
                self@.subrange(0, r as int) == start.subrange(0, r as int),
            decreases r,
        {
            r = r - 1;
            let row = self.cells[r];
            assert(row@ == start[r as int]) by {
                assert(self@.subrange(0, r as int + 1)[r as int] == start.subrange(0, r as int + 1)[r as int]);
            }
            let full = row_is_full(&row);
            let ghost tail = start.subrange(r as int, HEIGHT as int);
            assert(tail.drop_first() =~= start.subrange(r as int + 1, HEIGHT as int));
            assert(tail[0] == start[r as int]);
            proof { lemma_surviving_len(start.subrange(r as int + 1, HEIGHT as int)); }
            if !full {
                let ghost before = self@;
                w = w - 1;
                self.cells[w] = row;
                assert(self@.subrange(w as int, HEIGHT as int) =~= seq![row@] + before.subrange(w as int + 1, HEIGHT as int));
                assert(self@.subrange(0, r as int) =~= before.subrange(0, r as int));
                assert(before.subrange(0, r as int) =~= before.subrange(0, r as int + 1).subrange(0, r as int));
                assert(start.subrange(0, r as int) =~= start.subrange(0, r as int + 1).subrange(0, r as int));
            } else {
                assert(self@.subrange(0, r as int) =~= self@.subrange(0, r as int + 1).subrange(0, r as int));
                assert(start.subrange(0, r as int) =~= start.subrange(0, r as int + 1).subrange(0, r as int));
            }
        }
        assert(start.subrange(0, HEIGHT as int) =~= start);
        let ghost kept = self@.subrange(w as int, HEIGHT as int);
        let mut i: usize = 0;
        while i < w
            invariant
                0 <= i <= w <= HEIGHT,
                self@.subrange(w as int, HEIGHT as int) == kept,
                forall|k: int| 0 <= k < i ==> #[trigger] self@[k] == empty_row(),
            decreases w - i,
        {
            let ghost before = self@;
            self.cells[i] = [false; WIDTH];
            assert(self@[i as int] =~= empty_row());
            assert forall|k: int| 0 <= k < i implies #[trigger] self@[k] == empty_row() by {
                assert(self@[k] == before[k]);
            }
            assert(self@.subrange(w as int, HEIGHT as int) =~= before.subrange(w as int, HEIGHT as int));
            i = i + 1;
        }
        assert(self@ =~= compacted(start)) by {
            let c = compacted(start);
            assert forall|k: int| 0 <= k < HEIGHT implies self@[k] == c[k] by {
                if k >= w {
                    assert(self@[k] == self@.subrange(w as int, HEIGHT as int)[k - w]);
                }
            }
        }
        w
    }

    /// Writes the cells of `piece`, taken from `pivot`, into the grid in
    /// order. A cell at row 0 or above ends the game: it and the cells after it
    /// are not written, and the result is `true`.
    pub fn lock_piece(&mut self, piece: &Piece, pivot: [i32; 2]) -> (game_over: bool)
        requires
            piece.wf(),
            pivot_fits(pivot),
        ensures
            game_over <==> exists|i: int| 0 <= i < 4 && (#[trigger] placed(piece@, pair(pivot))[i]).1 <= 0,
            final(self)@ == locked(old(self)@, placed(piece@, pair(pivot)), lock_count(placed(piece@, pair(pivot)))),
    {
        let ghost cells = placed(piece@, pair(pivot));
        let ghost start = self@;
        let mut i: usize = 0;
        let mut game_over = false;
        while i < 4 && !game_over
            invariant
                0 <= i <= 4,
                piece.wf(),
                pivot_fits(pivot),
                cells == placed(piece@, pair(pivot)),
                forall|k: int| 0 <= k < i ==> (#[trigger] cells[k]).1 > 0,
                game_over ==> i < 4 && cells[i as int].1 <= 0,
                self@ == locked(start, cells, i as int),
            decreases 4 - i + (if game_over { 0int } else { 1 }),
        {
            let point = piece.points[i];
            assert(-MAX_OFFSET <= piece.points[i as int][0] <= MAX_OFFSET);
            assert(-MAX_OFFSET <= piece.points[i as int][1] <= MAX_OFFSET);
            let x = pivot[0] + point[0];
            let y = pivot[1] + point[1];
            assert(cells[i as int] == (x as int, y as int));
            if y > 0 {
                let _ = self.try_set(x, y);
                i = i + 1;
            } else {
                game_over = true;
            }
        }
        assert(lock_count(cells) == i) by {
            if i > 0 {
                assert(cells[0].1 > 0);
            }
            if i > 1 {
                assert(cells[1].1 > 0);
            }
            if i > 2 {
                assert(cells[2].1 > 0);
            }
            if i > 3 {
                assert(cells[3].1 > 0);
            }
        }
        game_over
    }

    /// Marks (x, y) occupied; an error, and no change, outside the grid.
    pub fn try_set(&mut self, x: i32, y: i32) -> (r: Result<(), BoardError>)
        ensures
            r is Ok <==> in_board(x as int, y as int),
            r is Ok ==> final(self)@ == set_cell(old(self)@, x as int, y as int),
            r is Err ==> *final(self) == *old(self),
    {
        if 0 <= x && (x as usize) < WIDTH && 0 <= y && (y as usize) < HEIGHT {
            self.cells[y as usize][x as usize] = true;
            assert(self@ =~= set_cell(old(self)@, x as int, y as int));
            Ok(())
        } else {
            Err(BoardError::OutOfRange)
        }
    }
}

} // verus!
