use vstd::prelude::*;

verus! {

/// An active four-cell piece: cell offsets around a pivot, the reach of the
/// shape in each direction (left, up, right, down), its shape id and the
/// current quarter-turn index.
#[derive(Clone, Copy, Debug, PartialEq, Eq)]
pub struct Piece {
    pub points: [[i32; 2]; 4],
    pub reach: [usize; 4],
    pub id: u8,
    pub rotation: i32,
}

/// Mathematical model of a piece.
pub struct PieceView {
    pub cells: Seq<(int, int)>,
    pub reach: Seq<int>,
    pub id: int,
    pub rotation: int,
}

impl View for Piece {
    type V = PieceView;

    open spec fn view(&self) -> PieceView {
        PieceView {
            cells: Seq::new(4, |i: int| (self.points[i][0] as int, self.points[i][1] as int)),
            reach: Seq::new(4, |i: int| self.reach[i] as int),
            id: self.id as int,
            rotation: self.rotation as int,
        }
    }
}

/// Largest offset magnitude of a cell from the pivot.
pub const MAX_OFFSET: i32 = 3;

/// Largest reach in any direction.
pub const MAX_REACH: usize = 4;

/// The id of the square, the one shape that never rotates.
pub const SQUARE: u8 = 4;

/// Number of shapes in the catalog.
pub const SHAPE_COUNT: u8 = 5;

/// The fixed offset from a piece's position to the pivot of its cells, by
/// rotation index.
pub open spec fn correction(rotation: int) -> (int, int) {
    if rotation == 0 {
        (0, 0)
    } else if rotation == 1 {
        (-1, 0)
    } else if rotation == 2 {
        (-1, -1)
    } else {
        (0, -1)
    }
}

/// Every cell, moved by the rotation's correction, lies within the reach:
/// left and up inclusive, right and down exclusive.
pub open spec fn boxed(v: PieceView) -> bool {
    forall|i: int|
        0 <= i < 4 ==> {
            let c = #[trigger] v.cells[i];
            let k = correction(v.rotation);
            &&& -v.reach[0] <= c.0 + k.0 < v.reach[2]
            &&& -v.reach[1] <= c.1 + k.1 < v.reach[3]
        }
}

impl Piece {
    /// Well-formed: a catalog id, a quarter-turn index, small offsets, and
    /// cells within the reach.
    pub open spec fn wf(&self) -> bool {
        &&& boxed(self@)
        &&& self.id < SHAPE_COUNT
        &&& 0 <= self.rotation < 4
        &&& forall|i: int, j: int|
            0 <= i < 4 && 0 <= j < 2 ==> -MAX_OFFSET <= #[trigger] self.points[i][j] <= MAX_OFFSET
        &&& forall|i: int| 0 <= i < 4 ==> #[trigger] self.reach[i] <= MAX_REACH
    }
}

/// The catalog: cells and reach of each shape in its spawn orientation.
pub open spec fn shape_view(id: int) -> PieceView {
    let cells = if id == 0 {
        seq![(-1int, 0int), (0, 0), (1, 0), (2, 0)]
    } else if id == 1 {
        seq![(-1int, -1int), (0, -1), (1, -1), (0, 0)]
    } else if id == 2 {
        seq![(-1int, 0int), (0, 0), (1, 0), (-1, 1)]
    } else if id == 3 {
        seq![(0int, -1int), (1, -1), (-1, 0), (0, 0)]
    } else {
        seq![(0int, 0int), (1, 0), (0, 1), (1, 1)]
    };
    let reach = if id == 0 {
        seq![1int, 0, 3, 1]
    } else if id == 1 {
        seq![1int, 1, 2, 1]
    } else if id == 2 {
        seq![1int, 0, 2, 2]
    } else if id == 3 {
        seq![1int, 1, 2, 1]
    } else {
        seq![0int, 0, 2, 2]
    };
    PieceView { cells, reach, id, rotation: 0 }
}

/// A quarter turn of one offset: clockwise (x, y) to (-y, x), counter-clockwise
/// (x, y) to (y, -x), with y growing downwards.
pub open spec fn turn(c: (int, int), direction: int) -> (int, int) {
    if direction == 1 {
        (-c.1, c.0)
    } else {
        (c.1, -c.0)
    }
}

/// A quarter turn of a whole piece: every cell turns, the reach shifts
/// cyclically (right for clockwise, left otherwise) and the index moves on.
pub open spec fn rotate_view(v: PieceView, direction: int) -> PieceView {
    PieceView {
        cells: Seq::new(4, |i: int| turn(v.cells[i], direction)),
        reach: if direction == 1 {
            seq![v.reach[3], v.reach[0], v.reach[1], v.reach[2]]
        } else {
            seq![v.reach[1], v.reach[2], v.reach[3], v.reach[0]]
        },
        id: v.id,
        rotation: (v.rotation + 4 + direction) % 4,
    }
}

/// The board cells of a piece whose offsets are taken from `pivot`.
pub open spec fn placed(v: PieceView, pivot: (int, int)) -> Seq<(int, int)> {
    Seq::new(4, |i: int| (pivot.0 + v.cells[i].0, pivot.1 + v.cells[i].1))
}

/// A pivot far enough from the limits of `i32` that offsets added to it fit.
pub open spec fn pivot_fits(pivot: [i32; 2]) -> bool {
    &&& i32::MIN + MAX_OFFSET <= pivot[0] <= i32::MAX - MAX_OFFSET
    &&& i32::MIN + MAX_OFFSET <= pivot[1] <= i32::MAX - MAX_OFFSET
}

/// The pivot as a pair of integers.
pub open spec fn pair(p: [i32; 2]) -> (int, int) {
    (p[0] as int, p[1] as int)
}

/// Builds the piece of shape `piece_id` in its spawn orientation; `None` for
/// an id outside the catalog.
pub fn create_piece(piece_id: u8) -> (r: Option<Piece>)
    ensures
        r is Some <==> piece_id < SHAPE_COUNT,
        r is Some ==> r->Some_0.wf() && r->Some_0@ == shape_view(piece_id as int),
{
    let r = match piece_id {
        0 => Some(Piece { points: [[-1, 0], [0, 0], [1, 0], [2, 0]], reach: [1, 0, 3, 1], id: 0, rotation: 0 }),
        1 => Some(Piece { points: [[-1, -1], [0, -1], [1, -1], [0, 0]], reach: [1, 1, 2, 1], id: 1, rotation: 0 }),
        2 => Some(Piece { points: [[-1, 0], [0, 0], [1, 0], [-1, 1]], reach: [1, 0, 2, 2], id: 2, rotation: 0 }),
        3 => Some(Piece { points: [[0, -1], [1, -1], [-1, 0], [0, 0]], reach: [1, 1, 2, 1], id: 3, rotation: 0 }),
        4 => Some(Piece { points: [[0, 0], [1, 0], [0, 1], [1, 1]], reach: [0, 0, 2, 2], id: 4, rotation: 0 }),
        _ => None,
    };
    proof {
        if r is Some {
            let p = r->Some_0;
            assert(p@.cells =~= shape_view(piece_id as int).cells);
            assert(p@.reach =~= shape_view(piece_id as int).reach);
        }
    }
    r
}

/// A quarter turn of one offset in the given direction.
pub(crate) fn turn_point(point: [i32; 2], direction: i32) -> (r: [i32; 2])
    requires
        direction == 1 || direction == -1,
        -MAX_OFFSET <= point[0] <= MAX_OFFSET,
        -MAX_OFFSET <= point[1] <= MAX_OFFSET,
    ensures
        (r[0] as int, r[1] as int) == turn((point[0] as int, point[1] as int), direction as int),
        -MAX_OFFSET <= r[0] <= MAX_OFFSET,
        -MAX_OFFSET <= r[1] <= MAX_OFFSET,
{
    if direction == 1 {
        [-point[1], point[0]]
    } else {
        [point[1], -point[0]]
    }
}

/// Turns the piece a quarter turn: clockwise for `direction == 1`,
/// counter-clockwise for `direction == -1`. No collision is checked here, and
/// the square is never turned.
pub fn rotate_piece(piece: &mut Piece, direction: i32)
    requires
        old(piece).wf(),
        old(piece).id != SQUARE,
        direction == 1 || direction == -1,
    ensures
        final(piece).wf(),
        final(piece)@ == rotate_view(old(piece)@, direction as int),
{
    piece.rotation = (piece.rotation + 4 + direction) % 4;
    let p = piece.points;
    assert(forall|i: int, j: int| 0 <= i < 4 && 0 <= j < 2 ==> -MAX_OFFSET <= #[trigger] p[i][j] <= MAX_OFFSET);
    assert(-MAX_OFFSET <= p[0][0] <= MAX_OFFSET && -MAX_OFFSET <= p[0][1] <= MAX_OFFSET);
    assert(-MAX_OFFSET <= p[1][0] <= MAX_OFFSET && -MAX_OFFSET <= p[1][1] <= MAX_OFFSET);
    assert(-MAX_OFFSET <= p[2][0] <= MAX_OFFSET && -MAX_OFFSET <= p[2][1] <= MAX_OFFSET);
    assert(-MAX_OFFSET <= p[3][0] <= MAX_OFFSET && -MAX_OFFSET <= p[3][1] <= MAX_OFFSET);
    let a = turn_point(p[0], direction);
    let b = turn_point(p[1], direction);
    let c = turn_point(p[2], direction);
    let d = turn_point(p[3], direction);
    piece.points = [a, b, c, d];
    let r = piece.reach;
    if direction == 1 {
        piece.reach = [r[3], r[0], r[1], r[2]];
    } else {
        piece.reach = [r[1], r[2], r[3], r[0]];
    }
    proof {
        let v = rotate_view(old(piece)@, direction as int);
        assert(piece@.cells =~= v.cells);
        assert(piece@.reach =~= v.reach);
        assert forall|i: int, j: int| 0 <= i < 4 && 0 <= j < 2 implies -MAX_OFFSET <= #[trigger] piece.points[i][j] <= MAX_OFFSET by {
            if i == 0 {} else if i == 1 {} else if i == 2 {} else {}
        }
        assert forall|i: int| 0 <= i < 4 implies #[trigger] piece.reach[i] <= MAX_REACH by {
            assert(old(piece).reach[0] <= MAX_REACH);
            assert(old(piece).reach[1] <= MAX_REACH);
            assert(old(piece).reach[2] <= MAX_REACH);
            assert(old(piece).reach[3] <= MAX_REACH);
        }
    }
}

/// Four quarter turns in one direction give back the piece: cells, reach and
/// rotation index alike.
pub proof fn lemma_four_turns(p: Piece, direction: int)
    requires
        p.wf(),
        direction == 1 || direction == -1,
    ensures
        rotate_view(rotate_view(rotate_view(rotate_view(p@, direction), direction), direction), direction) == p@,
{
    let v1 = rotate_view(p@, direction);
    let v2 = rotate_view(v1, direction);
    let v3 = rotate_view(v2, direction);
    let v4 = rotate_view(v3, direction);
    assert(v4.cells =~= p@.cells);
    assert(v4.reach =~= p@.reach);
}

/// A clockwise quarter turn followed by a counter-clockwise one gives back
/// the piece: cells, reach and rotation index alike.
pub proof fn lemma_turn_back(p: Piece)
    requires
        p.wf(),
    ensures
        rotate_view(rotate_view(p@, 1), -1) == p@,
{
    let v1 = rotate_view(p@, 1);
    let v2 = rotate_view(v1, -1);
    assert(v2.cells =~= p@.cells);
    assert(v2.reach =~= p@.reach);
}

} // verus!
