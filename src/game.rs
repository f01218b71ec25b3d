use vstd::prelude::*;

use crate::board::{compacted, in_board, lock_count, locked, Board, HEIGHT, WIDTH};
use crate::input::{
    armed, armed_spec, rotate_intent, rotate_intent_spec, shift_intent, shift_intent_spec, Keys,
    ROTATE_DELAY, SHIFT_DELAY,
};
use crate::random::gen_below;
use crate::piece::{
    correction, create_piece, pair, pivot_fits, placed, rotate_piece, rotate_view, shape_view, turn_point, Piece,
    PieceView, MAX_OFFSET, SQUARE,
};

verus! {

/// Ticks between one-row falls.
pub const FALL_INTERVAL: u64 = 42;

/// Ticks between one-row falls while soft drop is held.
pub const SOFT_DROP_INTERVAL: u64 = 6;

/// Ticks a landed piece waits before it locks.
pub const LOCK_DELAY: u64 = 12;

/// The simulation state: the board, the active piece with its pivot, and the
/// per-piece counters.
#[derive(Clone, Copy, Debug, PartialEq, Eq)]
pub struct Game {
    pub board: Board,
    pub piece: Piece,
    pub position: [i32; 2],
    pub ticks: u64,
    pub rotate: i32,
    pub rotate_ticks: u32,
    pub shift: i32,
    pub shift_ticks: u32,
    pub soft_drop: bool,
    pub game_over: bool,
}

/// Mathematical model of the simulation state.
pub struct GameView {
    pub board: Seq<Seq<bool>>,
    pub piece: PieceView,
    pub position: (int, int),
    pub ticks: int,
    pub rotate: int,
    pub rotate_ticks: int,
    pub shift: int,
    pub shift_ticks: int,
    pub soft_drop: bool,
    pub game_over: bool,
}

impl View for Game {
    type V = GameView;

    open spec fn view(&self) -> GameView {
        GameView {
            board: self.board@,
            piece: self.piece@,
            position: pair(self.position),
            ticks: self.ticks as int,
            rotate: self.rotate as int,
            rotate_ticks: self.rotate_ticks as int,
            shift: self.shift as int,
            shift_ticks: self.shift_ticks as int,
            soft_drop: self.soft_drop,
            game_over: self.game_over,
        }
    }
}

/// A place a piece cell cannot take: off the grid, or locked.
pub open spec fn blocked(board: Seq<Seq<bool>>, x: int, y: int) -> bool {
    !in_board(x, y) || board[y][x]
}

impl GameView {
    /// The pivot of the cells: the position moved by the rotation's correction.
    pub open spec fn pivot(self) -> (int, int) {
        (self.position.0 + correction(self.piece.rotation).0, self.position.1 + correction(self.piece.rotation).1)
    }

    /// The board cells of the active piece.
    pub open spec fn cells(self) -> Seq<(int, int)> {
        placed(self.piece, self.pivot())
    }
}

/// The state after one poll of the keys.
pub open spec fn read_keys_spec(v: GameView, keys: Keys) -> GameView {
    let rotate = rotate_intent_spec(v.rotate as i32, keys.rotate_cw, keys.rotate_ccw, v.piece.id == SQUARE);
    let shift = shift_intent_spec(v.shift as i32, keys.left, keys.right);
    GameView {
        rotate: rotate as int,
        rotate_ticks: armed_spec(rotate, v.rotate_ticks as u32, ROTATE_DELAY) as int,
        shift: shift as int,
        shift_ticks: armed_spec(shift, v.shift_ticks as u32, SHIFT_DELAY) as int,
        soft_drop: keys.soft_drop,
        ..v
    }
}

/// The shifted piece keeps within the reach bounds of the board.
pub open spec fn shift_in_reach(v: GameView) -> bool {
    &&& v.position.0 - v.piece.reach[0] + v.shift >= 0
    &&& v.position.0 + v.piece.reach[2] + v.shift <= WIDTH
}

/// No cell of the shifted piece is blocked.
pub open spec fn shift_clear(v: GameView) -> bool {
    forall|i: int| 0 <= i < 4 ==> !blocked(v.board, (#[trigger] v.cells()[i]).0 + v.shift, v.cells()[i].1)
}

/// A pending shift that fires this tick and is taken.
pub open spec fn shift_accepted(v: GameView) -> bool {
    v.shift_ticks == SHIFT_DELAY && shift_in_reach(v) && shift_clear(v)
}

/// Shift resolution: a shift fires on the first tick after arming and moves
/// the piece when it fits; one that does not fit is cancelled. The counter
/// then counts down, and the intent is consumed.
pub open spec fn shift_step(v: GameView) -> GameView {
    if v.shift_ticks <= 0 {
        v
    } else if v.shift_ticks == SHIFT_DELAY {
        if shift_accepted(v) {
            GameView { position: (v.position.0 + v.shift, v.position.1), shift_ticks: v.shift_ticks - 1, shift: 0, ..v }
        } else {
            GameView { shift_ticks: 0, shift: 0, ..v }
        }
    } else {
        GameView { shift_ticks: v.shift_ticks - 1, shift: 0, ..v }
    }
}

/// No cell of the piece, turned in `direction` about `pivot`, is blocked.
pub open spec fn rotation_clear(board: Seq<Seq<bool>>, v: PieceView, pivot: (int, int), direction: int) -> bool {
    forall|i: int|
        0 <= i < 4 ==> !blocked(board, (#[trigger] placed(rotate_view(v, direction), pivot)[i]).0, placed(rotate_view(v, direction), pivot)[i].1)
}

/// The reach box of the turned piece stays on the board.
pub open spec fn rotation_fits(v: GameView, direction: int) -> bool {
    let r = v.piece.reach;
    let x = v.position.0;
    let y = v.position.1;
    if direction == 1 {
        x - r[3] >= 0 && x + r[1] <= WIDTH && y - r[0] >= 0 && y + r[2] <= HEIGHT
    } else {
        x - r[1] >= 0 && x + r[3] <= WIDTH && y - r[2] >= 0 && y + r[0] <= HEIGHT
    }
}

/// A pending rotation that fires this tick and is taken.
pub open spec fn rotation_accepted(v: GameView) -> bool {
    &&& v.rotate_ticks == ROTATE_DELAY
    &&& (v.rotate == 1 || v.rotate == -1)
    &&& rotation_fits(v, v.rotate)
    &&& rotation_clear(v.board, v.piece, v.pivot(), v.rotate)
}

/// Rotation resolution: a rotation fires on the first tick after arming and
/// turns the piece when it fits; otherwise the piece stays as it was. The
/// counter counts down and the intent is consumed.
pub open spec fn rotate_step(v: GameView) -> GameView {
    if v.rotate_ticks <= 0 {
        v
    } else {
        GameView {
            piece: if rotation_accepted(v) { rotate_view(v.piece, v.rotate) } else { v.piece },
            rotate: 0,
            rotate_ticks: v.rotate_ticks - 1,
            ..v
        }
    }
}

/// The reach of the piece touches the floor.
pub open spec fn on_floor(v: GameView) -> bool {
    v.position.1 + v.piece.reach[3] >= HEIGHT
}

/// Some cell of the piece has a blocked place right below it.
pub open spec fn resting(v: GameView) -> bool {
    exists|i: int| 0 <= i < 4 && blocked(v.board, (#[trigger] v.cells()[i]).0, v.cells()[i].1 + 1)
}

/// The piece cannot fall further.
pub open spec fn landed(v: GameView) -> bool {
    on_floor(v) || resting(v)
}

/// Ticks between gravity steps: the lock delay once landed, else the fall
/// interval, shorter while soft drop is held.
pub open spec fn fall_interval(v: GameView) -> int {
    if landed(v) {
        LOCK_DELAY as int
    } else if v.soft_drop {
        SOFT_DROP_INTERVAL as int
    } else {
        FALL_INTERVAL as int
    }
}

/// Gravity acts on this tick.
pub open spec fn gravity_due(v: GameView) -> bool {
    v.ticks > 0 && v.ticks % fall_interval(v) == 0
}

/// The tick counter after one more tick; it stops at the largest `u64`.
pub open spec fn next_tick(t: int) -> int {
    if t < u64::MAX {
        t + 1
    } else {
        t
    }
}

/// Lock, merge and clear: the piece is written into the board, which then
/// loses its full rows; a cell at row 0 or above ends the game.
pub open spec fn settle(v: GameView) -> GameView {
    let cells = v.cells();
    GameView {
        board: compacted(locked(v.board, cells, lock_count(cells))),
        game_over: exists|i: int| 0 <= i < 4 && (#[trigger] cells[i]).1 <= 0,
        ..v
    }
}

/// Gravity: when due, a landed piece settles and any other falls one row.
pub open spec fn gravity_step(v: GameView) -> GameView {
    if gravity_due(v) {
        if landed(v) {
            settle(v)
        } else {
            GameView { position: (v.position.0, v.position.1 + 1), ticks: next_tick(v.ticks), ..v }
        }
    } else {
        GameView { ticks: next_tick(v.ticks), ..v }
    }
}

/// One tick of the simulation before any new piece: shift, rotation, then
/// gravity. A finished game does not move.
pub open spec fn advance_spec(v: GameView) -> GameView {
    if v.game_over {
        v
    } else {
        gravity_step(rotate_step(shift_step(v)))
    }
}

/// The tick locks the piece and the game goes on: a new piece is owed.
pub open spec fn spawn_due(v: GameView) -> bool {
    let w = rotate_step(shift_step(v));
    !v.game_over && gravity_due(w) && landed(w) && !settle(w).game_over
}

/// A column where a piece of the shape may spawn.
pub open spec fn spawn_column_ok(shape: int, x: int) -> bool {
    shape_view(shape).reach[0] <= x <= WIDTH - shape_view(shape).reach[2]
}

/// A new piece of the shape at column `x`, just below the top by its reach,
/// with every per-piece counter and intent reset.
pub open spec fn spawn_spec(v: GameView, shape: int, x: int) -> GameView {
    let p = shape_view(shape);
    GameView {
        piece: p,
        position: (x, p.reach[1]),
        ticks: 0,
        rotate: 0,
        rotate_ticks: 0,
        shift: 0,
        shift_ticks: 0,
        ..v
    }
}

/// A new game: an empty board and a piece of the shape at column `x`.
pub open spec fn fresh(shape: int, x: int) -> GameView {
    let p = shape_view(shape);
    GameView {
        board: Seq::new(HEIGHT as nat, |y: int| Seq::new(WIDTH as nat, |c: int| false)),
        piece: p,
        position: (x, p.reach[1]),
        ticks: 0,
        rotate: 0,
        rotate_ticks: 0,
        shift: 0,
        shift_ticks: 0,
        soft_drop: false,
        game_over: false,
    }
}

/// Whether no cell of `piece`, turned in `direction` about `position`, lands
/// on a locked cell or off the board.
pub fn check_rotation(piece: &Piece, position: &[i32; 2], map: &Board, direction: i32) -> (r: bool)
    requires
        piece.wf(),
        pivot_fits(*position),
        direction == 1 || direction == -1,
    ensures
        r == rotation_clear(map@, piece@, pair(*position), direction as int),
{
    let ghost cells = placed(rotate_view(piece@, direction as int), pair(*position));
    let mut i: usize = 0;
    while i < 4
        invariant
            0 <= i <= 4,
            piece.wf(),
            pivot_fits(*position),
            direction == 1 || direction == -1,
            cells == placed(rotate_view(piece@, direction as int), pair(*position)),
            forall|k: int| 0 <= k < i ==> !blocked(map@, (#[trigger] cells[k]).0, cells[k].1),
        decreases 4 - i,
    {
        let point = piece.points[i];
        assert(-MAX_OFFSET <= piece.points[i as int][0] <= MAX_OFFSET);
        assert(-MAX_OFFSET <= piece.points[i as int][1] <= MAX_OFFSET);
        let t = turn_point(point, direction);
        assert(cells[i as int] == (position[0] + t[0], position[1] + t[1]));
        if map.is_occupied(position[0] + t[0], position[1] + t[1]) {
            return false;
        }
        i = i + 1;
    }
    true
}

impl Game {
    /// The counters stay in their ranges, the reach of the piece about its
    /// position stays on the board, and the square never holds a rotate
    /// intent.
    pub open spec fn wf(&self) -> bool {
        &&& self.piece.wf()
        &&& self.position[0] - self.piece.reach[0] >= 0
        &&& self.position[0] + self.piece.reach[2] <= WIDTH
        &&& self.position[1] - self.piece.reach[1] >= 0
        &&& self.position[1] + self.piece.reach[3] <= HEIGHT
        &&& self.board@.len() == HEIGHT
        &&& 0 <= self.position[0] <= WIDTH
        &&& 0 <= self.position[1] <= HEIGHT
        &&& -1 <= self.rotate <= 1
        &&& -1 <= self.shift <= 1
        &&& self.rotate_ticks <= ROTATE_DELAY
        &&& self.shift_ticks <= SHIFT_DELAY
        &&& self.piece.id == SQUARE ==> self.rotate == 0
    }

    /// Folds the keys held at one poll into the pending intents and arms their
    /// counters; soft drop follows its key.
    pub fn read_keys(&mut self, keys: Keys)
        requires
            old(self).wf(),
        ensures
            final(self).wf(),
            final(self)@ == read_keys_spec(old(self)@, keys),
    {
        let square = self.piece.id == SQUARE;
        self.rotate = rotate_intent(self.rotate, keys.rotate_cw, keys.rotate_ccw, square);
        self.rotate_ticks = armed(self.rotate, self.rotate_ticks, ROTATE_DELAY);
        self.shift = shift_intent(self.shift, keys.left, keys.right);
        self.shift_ticks = armed(self.shift, self.shift_ticks, SHIFT_DELAY);
        self.soft_drop = keys.soft_drop;
    }

    /// The pivot of the cells: the position moved by the rotation's correction.
    pub fn pivot(&self) -> (r: [i32; 2])
        requires
            self.wf(),
        ensures
            pair(r) == self@.pivot(),
            -1 <= r[0] <= WIDTH,
            -1 <= r[1] <= HEIGHT,
    {
        let rotation = self.piece.rotation;
        if rotation == 0 {
            [self.position[0], self.position[1]]
        } else if rotation == 1 {
            [self.position[0] - 1, self.position[1]]
        } else if rotation == 2 {
            [self.position[0] - 1, self.position[1] - 1]
        } else {
            [self.position[0], self.position[1] - 1]
        }
    }

    /// Whether every cell of the piece, moved by (dx, dy), is free.
    fn fits_moved(&self, pivot: [i32; 2], dx: i32, dy: i32) -> (r: bool)
        requires
            self.wf(),
            pair(pivot) == self@.pivot(),
            -1 <= pivot[0] <= WIDTH,
            -1 <= pivot[1] <= HEIGHT,
            -1 <= dx <= 1,
            -1 <= dy <= 1,
        ensures
            r == forall|i: int| 0 <= i < 4 ==> !blocked(self.board@, (#[trigger] self@.cells()[i]).0 + dx, self@.cells()[i].1 + dy),
    {
        let mut i: usize = 0;
        while i < 4
            invariant
                0 <= i <= 4,
                self.wf(),
                pair(pivot) == self@.pivot(),
                -1 <= pivot[0] <= WIDTH,
                -1 <= pivot[1] <= HEIGHT,
                -1 <= dx <= 1,
                -1 <= dy <= 1,
                forall|k: int| 0 <= k < i ==> !blocked(self.board@, (#[trigger] self@.cells()[k]).0 + dx, self@.cells()[k].1 + dy),
            decreases 4 - i,
        {
            let point = self.piece.points[i];
            assert(-MAX_OFFSET <= self.piece.points[i as int][0] <= MAX_OFFSET);
            assert(-MAX_OFFSET <= self.piece.points[i as int][1] <= MAX_OFFSET);
            assert(self@.cells()[i as int] == (pivot[0] + point[0], pivot[1] + point[1]));
            if self.board.is_occupied(pivot[0] + point[0] + dx, pivot[1] + point[1] + dy) {
                assert(blocked(self.board@, self@.cells()[i as int].0 + dx, self@.cells()[i as int].1 + dy));
                return false;
            }
            i = i + 1;
        }
        true
    }

    /// Resolves a pending shift for this tick.
    pub fn resolve_shift(&mut self)
        requires
            old(self).wf(),
        ensures
            final(self).wf(),
            final(self)@ == shift_step(old(self)@),
    {
        if self.shift_ticks > 0 {
            if self.shift_ticks == SHIFT_DELAY {
                let in_reach = self.position[0] - self.piece.reach[0] as i32 + self.shift >= 0
                    && self.position[0] + self.piece.reach[2] as i32 + self.shift <= WIDTH as i32;
                if in_reach {
                    let pivot = self.pivot();
                    if self.fits_moved(pivot, self.shift, 0) {
                        self.position[0] = self.position[0] + self.shift;
                        self.shift_ticks = self.shift_ticks - 1;
                    } else {
                        self.shift_ticks = 0;
                    }
                } else {
                    self.shift_ticks = 0;
                }
            } else {
                self.shift_ticks = self.shift_ticks - 1;
            }
            self.shift = 0;
        }
    }
    /// Resolves a pending rotation for this tick.
    pub fn resolve_rotation(&mut self)
        requires
            old(self).wf(),
        ensures
            final(self).wf(),
            final(self)@ == rotate_step(old(self)@),
    {
        if self.rotate_ticks > 0 {
            if self.rotate_ticks == ROTATE_DELAY && (self.rotate == 1 || self.rotate == -1) {
                let d = self.rotate;
                let r = self.piece.reach;
                let x = self.position[0];
                let y = self.position[1];
                assert(r[0] <= 4 && r[1] <= 4 && r[2] <= 4 && r[3] <= 4);
                let fits = if d == 1 {
                    x - r[3] as i32 >= 0 && x + r[1] as i32 <= WIDTH as i32 && y - r[0] as i32 >= 0 && y + r[2] as i32 <= HEIGHT as i32
                } else {
                    x - r[1] as i32 >= 0 && x + r[3] as i32 <= WIDTH as i32 && y - r[2] as i32 >= 0 && y + r[0] as i32 <= HEIGHT as i32
                };
                if fits {
                    let pivot = self.pivot();
                    if check_rotation(&self.piece, &pivot, &self.board, d) {
                        rotate_piece(&mut self.piece, d);
                    }
                }
            }
            self.rotate = 0;
            self.rotate_ticks = self.rotate_ticks - 1;
        }
    }

    /// Moves the piece down one row, or locks it where it has landed; the
    /// result says whether a new piece is owed.
    fn apply_gravity(&mut self) -> (spawn: bool)
        requires
            old(self).wf(),
        ensures
            final(self).wf(),
            final(self)@ == gravity_step(old(self)@),
            spawn == (gravity_due(old(self)@) && landed(old(self)@) && !settle(old(self)@).game_over),
    {
        let pivot = self.pivot();
        assert(self.piece.reach[3] <= 4);
        let floor = self.position[1] + self.piece.reach[3] as i32 >= HEIGHT as i32;
        let mut blocked_below = false;
        if !floor {
            blocked_below = !self.fits_moved(pivot, 0, 1);
        }
        let has_landed = floor || blocked_below;
        let interval: u64 = if has_landed {
            LOCK_DELAY
        } else if self.soft_drop {
            SOFT_DROP_INTERVAL
        } else {
            FALL_INTERVAL
        };
        assert(has_landed == landed(self@));
        if self.ticks > 0 && self.ticks % interval == 0 {
            if has_landed {
                let over = self.board.lock_piece(&self.piece, pivot);
                let _ = self.board.clear_full_rows();
                self.game_over = over;
                return !over;
            } else {
                self.position[1] = self.position[1] + 1;
            }
        }
        if self.ticks < u64::MAX {
            self.ticks = self.ticks + 1;
        }
        false
    }

    /// Places a new piece of the shape at column `x` and resets every
    /// per-piece counter and intent.
    pub fn spawn(&mut self, shape_id: u8, x: i32)
        requires
            old(self).wf(),
            shape_id < 5,
            spawn_column_ok(shape_id as int, x as int),
        ensures
            final(self).wf(),
            final(self)@ == spawn_spec(old(self)@, shape_id as int, x as int),
    {
        match create_piece(shape_id) {
            Some(p) => {
                self.piece = p;
                self.position = [x, p.reach[1] as i32];
                self.ticks = 0;
                self.rotate = 0;
                self.rotate_ticks = 0;
                self.shift = 0;
                self.shift_ticks = 0;
            },
            None => {},
        }
    }

    /// One tick before any new piece: shift, rotation and gravity. The
    /// result says whether the piece locked and a new one is owed.
    pub fn advance(&mut self) -> (spawn: bool)
        requires
            old(self).wf(),
        ensures
            final(self).wf(),
            final(self)@ == advance_spec(old(self)@),
            spawn == spawn_due(old(self)@),
    {
        if self.game_over {
            return false;
        }
        self.resolve_shift();
        self.resolve_rotation();
        self.apply_gravity()
    }

    /// One full tick: after a lock, the next shape and its column are drawn
    /// from `rng`, the column within the shape's reach of the walls.
    pub fn tick(&mut self, rng: &mut rand::rngs::ThreadRng)
        requires
            old(self).wf(),
        ensures
            final(self).wf(),
            !spawn_due(old(self)@) ==> final(self)@ == advance_spec(old(self)@),
            spawn_due(old(self)@) ==> exists|shape: int, x: int|
                0 <= shape < 5 && spawn_column_ok(shape, x) && final(self)@ == spawn_spec(advance_spec(old(self)@), shape, x),
    {
        if self.advance() {
            let (shape, x) = draw_spawn(rng);
            self.spawn(shape, x);
        }
    }

    /// A new game with an empty board and a piece of the shape at column `x`;
    /// `None` for an unknown shape or a column where the piece does not fit.
    pub fn start(shape_id: u8, x: i32) -> (r: Option<Game>)
        ensures
            r is Some <==> (shape_id < 5 && spawn_column_ok(shape_id as int, x as int)),
            r is Some ==> r->Some_0.wf() && r->Some_0@ == fresh(shape_id as int, x as int),
    {
        match create_piece(shape_id) {
            Some(p) => {
                if (p.reach[0] as i32) <= x && x <= WIDTH as i32 - p.reach[2] as i32 {
                    let g = Game {
                        board: Board::new(),
                        piece: p,
                        position: [x, p.reach[1] as i32],
                        ticks: 0,
                        rotate: 0,
                        rotate_ticks: 0,
                        shift: 0,
                        shift_ticks: 0,
                        soft_drop: false,
                        game_over: false,
                    };
                    assert(g@.board =~= fresh(shape_id as int, x as int).board);
                    Some(g)
                } else {
                    None
                }
            },
            None => None,
        }
    }

    /// A new game with a shape and column drawn from `rng`.
    pub fn new(rng: &mut rand::rngs::ThreadRng) -> (r: Game)
        ensures
            r.wf(),
            exists|shape: int, x: int| 0 <= shape < 5 && spawn_column_ok(shape, x) && r@ == fresh(shape, x),
    {
        let (shape, x) = draw_spawn(rng);
        Game::start(shape, x).unwrap()
    }

    /// The board cells of the active piece, for drawing.
    pub fn piece_cells(&self) -> (r: [[i32; 2]; 4])
        requires
            self.wf(),
        ensures
            forall|i: int| 0 <= i < 4 ==> pair(#[trigger] r[i]) == self@.cells()[i],
    {
        let pivot = self.pivot();
        let p = self.piece.points;
        assert(forall|i: int, j: int| 0 <= i < 4 && 0 <= j < 2 ==> -MAX_OFFSET <= #[trigger] p[i][j] <= MAX_OFFSET);
        assert(-MAX_OFFSET <= p[0][0] <= MAX_OFFSET && -MAX_OFFSET <= p[0][1] <= MAX_OFFSET);
        assert(-MAX_OFFSET <= p[1][0] <= MAX_OFFSET && -MAX_OFFSET <= p[1][1] <= MAX_OFFSET);
        assert(-MAX_OFFSET <= p[2][0] <= MAX_OFFSET && -MAX_OFFSET <= p[2][1] <= MAX_OFFSET);
        assert(-MAX_OFFSET <= p[3][0] <= MAX_OFFSET && -MAX_OFFSET <= p[3][1] <= MAX_OFFSET);
        let r = [
            [pivot[0] + p[0][0], pivot[1] + p[0][1]],
            [pivot[0] + p[1][0], pivot[1] + p[1][1]],
            [pivot[0] + p[2][0], pivot[1] + p[2][1]],
            [pivot[0] + p[3][0], pivot[1] + p[3][1]],
        ];
        assert forall|i: int| 0 <= i < 4 implies pair(#[trigger] r[i]) == self@.cells()[i] by {
            if i == 0 {} else if i == 1 {} else if i == 2 {} else {}
        }
        r
    }
}

/// The square never turns: no poll of the keys gives it a rotate intent, and
/// rotation resolution leaves it as it is.
pub proof fn lemma_square_never_turns(g: Game, keys: Keys)
    requires
        g.wf(),
        g.piece.id == SQUARE,
    ensures
        read_keys_spec(g@, keys).rotate == 0,
        read_keys_spec(g@, keys).rotate_ticks == 0,
        rotate_step(g@).piece == g@.piece,
        rotate_step(shift_step(g@)).piece == g@.piece,
{
}

/// Every cell of the active piece lies on the board, in every state the
/// game can reach.
pub proof fn lemma_piece_on_board(g: Game)
    requires
        g.wf(),
    ensures
        forall|i: int| 0 <= i < 4 ==> in_board((#[trigger] g@.cells()[i]).0, g@.cells()[i].1),
{
    assert forall|i: int| 0 <= i < 4 implies in_board((#[trigger] g@.cells()[i]).0, g@.cells()[i].1) by {
        assert(g@.cells()[i] == (g@.pivot().0 + g@.piece.cells[i].0, g@.pivot().1 + g@.piece.cells[i].1));
    }
}

/// A shift that is taken leaves every cell of the piece on the board and on a
/// free place; one that is not taken leaves the position, the piece, the
/// board and the other counters as they were, and cancels its own counter
/// when it fired.
pub proof fn lemma_shift_safe(g: Game)
    requires
        g.wf(),
    ensures
        shift_accepted(g@) ==> forall|i: int| 0 <= i < 4 ==> {
            let c = #[trigger] shift_step(g@).cells()[i];
            &&& 0 <= c.0 < WIDTH
            &&& !blocked(shift_step(g@).board, c.0, c.1)
        },
        !shift_accepted(g@) ==> {
            let w = shift_step(g@);
            &&& w.position == g@.position
            &&& w.piece == g@.piece
            &&& w.board == g@.board
            &&& w.ticks == g@.ticks
            &&& w.rotate == g@.rotate
            &&& w.rotate_ticks == g@.rotate_ticks
            &&& (g@.shift_ticks == SHIFT_DELAY ==> w.shift_ticks == 0)
        },
{
    let v = g@;
    let w = shift_step(v);
    if shift_accepted(v) {
        assert forall|i: int| 0 <= i < 4 implies {
            let c = #[trigger] w.cells()[i];
            &&& 0 <= c.0 < WIDTH
            &&& !blocked(w.board, c.0, c.1)
        } by {
            assert(w.cells()[i] == (v.cells()[i].0 + v.shift, v.cells()[i].1));
        }
    }
}

/// Draws the next shape, then a column within that shape's reach of the walls.
fn draw_spawn(rng: &mut rand::rngs::ThreadRng) -> (r: (u8, i32))
    ensures
        r.0 < 5,
        spawn_column_ok(r.0 as int, r.1 as int),
{
    let shape = gen_below(rng, 0, 5) as u8;
    let p = create_piece(shape).unwrap();
    let x = gen_below(rng, p.reach[0], WIDTH - p.reach[2] + 1) as i32;
    (shape, x)
}

} // verus!
