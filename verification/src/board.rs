//! The playing field: 40 row bitmasks, ten cached column heights, collision
//! queries, placement with row clearing, and garbage injection.

use vstd::prelude::*;
use std::collections::VecDeque;
use crate::piece::{
    FieldPiece, Piece, PieceMovement, PieceState, RotationState, pos_in_range, rot_index,
    spec_field_cells, spec_piece_cells,
};
use crate::rng::rand_below;
use crate::rule::{SAME_HOLE_CHANCE_IN_TEN, TIME_HARD_DROP, TIME_HOLD, TIME_MOVE_ONE, TIME_ROTATE};
use crate::state::PlacementKind;

verus! {

/// Abstract time units accumulated along a movement path.
pub type Time = u32;

/// One node of the movement search: a piece on the field together with the
/// hold slot, the remaining queue, the path taken and its accumulated time.
#[derive(Debug)]
pub struct MovementState {
    pub field_piece: FieldPiece,
    pub hold_piece: Option<Piece>,
    pub movements_history: Vec<PieceMovement>,
    pub next_pieces: VecDeque<Piece>,
    pub has_held: bool,
    pub time: Time,
}

/// Copies a movement list element by element.
pub fn clone_movements(v: &Vec<PieceMovement>) -> (r: Vec<PieceMovement>)
    ensures
        r@ == v@,
{
    let mut r: Vec<PieceMovement> = Vec::new();
    let mut i: usize = 0;
    while i < v.len()
        invariant
            0 <= i <= v@.len(),
            r@ == v@.take(i as int),
        decreases v@.len() - i,
    {
        r.push(v[i]);
        proof {
            assert(v@.take(i + 1) =~= v@.take(i as int).push(v@[i as int]));
        }
        i = i + 1;
    }
    proof {
        assert(v@.take(v@.len() as int) =~= v@);
    }
    r
}

/// Copies a piece queue element by element.
pub fn clone_queue(q: &VecDeque<Piece>) -> (r: VecDeque<Piece>)
    ensures
        r@ == q@,
{
    let mut r: VecDeque<Piece> = VecDeque::new();
    let mut i: usize = 0;
    while i < q.len()
        invariant
            0 <= i <= q@.len(),
            r@ == q@.take(i as int),
        decreases q@.len() - i,
    {
        r.push_back(q[i]);
        proof {
            assert(q@.take(i + 1) =~= q@.take(i as int).push(q@[i as int]));
        }
        i = i + 1;
    }
    proof {
        assert(q@.take(q@.len() as int) =~= q@);
    }
    r
}

/// Copies a row vector element by element.
pub fn clone_rows(v: &Vec<u16>) -> (r: Vec<u16>)
    ensures
        r@ == v@,
{
    let mut r: Vec<u16> = Vec::new();
    let mut i: usize = 0;
    while i < v.len()
        invariant
            0 <= i <= v@.len(),
            r@ == v@.take(i as int),
        decreases v@.len() - i,
    {
        r.push(v[i]);
        proof {
            assert(v@.take(i + 1) =~= v@.take(i as int).push(v@[i as int]));
        }
        i = i + 1;
    }
    proof {
        assert(v@.take(v@.len() as int) =~= v@);
    }
    r
}

impl MovementState {
    pub fn new_from_piece(
        current_piece: Piece,
        hold_piece: Option<Piece>,
        next_pieces: VecDeque<Piece>,
    ) -> (r: MovementState)
        ensures
            r.field_piece == FieldPiece::spec_spawn(current_piece),
            r.hold_piece == hold_piece,
            r.next_pieces@ == next_pieces@,
            r.movements_history@ == Seq::<PieceMovement>::empty(),
            !r.has_held,
            r.time == 0,
    {
        MovementState {
            field_piece: FieldPiece::new_from_piece(current_piece),
            hold_piece,
            next_pieces,
            movements_history: Vec::new(),
            has_held: false,
            time: 0,
        }
    }

    /// One further step of the path: same hold, queue and held flag, one more
    /// movement in the history, time increased by the step's cost.
    pub(crate) fn next_movement_state(
        &self,
        field_piece: FieldPiece,
        piece_movement: PieceMovement,
        time: Time,
    ) -> (r: MovementState)
        requires
            self.time + time <= u32::MAX,
        ensures
            r.field_piece == field_piece,
            r.hold_piece == self.hold_piece,
            r.next_pieces@ == self.next_pieces@,
            r.movements_history@ == self.movements_history@.push(piece_movement),
            r.has_held == self.has_held,
            r.time == self.time + time,
    {
        let mut new_movements_history = clone_movements(&self.movements_history);
        new_movements_history.push(piece_movement);

        MovementState {
            field_piece,
            hold_piece: self.hold_piece,
            next_pieces: clone_queue(&self.next_pieces),
            movements_history: new_movements_history,
            has_held: self.has_held,
            time: self.time + time,
        }
    }

    /// As `next_movement_state`, but appending a whole run of movements.
    pub(crate) fn next_movement_state_with_movements(
        &self,
        field_piece: FieldPiece,
        movements: Vec<PieceMovement>,
        time: Time,
    ) -> (r: MovementState)
        requires
            self.time + time <= u32::MAX,
        ensures
            r.field_piece == field_piece,
            r.hold_piece == self.hold_piece,
            r.next_pieces@ == self.next_pieces@,
            r.movements_history@ == self.movements_history@ + movements@,
            r.has_held == self.has_held,
            r.time == self.time + time,
    {
        let mut new_movements_history = clone_movements(&self.movements_history);
        let mut extra = movements;
        new_movements_history.append(&mut extra);

        MovementState {
            field_piece,
            hold_piece: self.hold_piece,
            next_pieces: clone_queue(&self.next_pieces),
            movements_history: new_movements_history,
            has_held: self.has_held,
            time: self.time + time,
        }
    }

    /// Swaps the active piece into the hold slot. Legal only before any other
    /// movement and at most once; with an empty hold slot the replacement
    /// comes from the queue instead.
    pub fn hold(&self) -> (r: Option<MovementState>)
        ensures
            (self.has_held || self.movements_history@.len() > 0) ==> r is None,
            (!self.has_held && self.movements_history@.len() == 0) ==> match self.hold_piece {
                Some(held) => r matches Some(m) && m.field_piece == FieldPiece::spec_spawn(held)
                    && m.hold_piece == Some(self.field_piece.piece_state.piece)
                    && m.next_pieces@ == self.next_pieces@
                    && m.movements_history@ == seq![PieceMovement::Hold]
                    && m.has_held
                    && m.time == TIME_HOLD,
                None => {
                    if self.next_pieces@.len() == 0 {
                        r is None
                    } else {
                        r matches Some(m) && m.field_piece == FieldPiece::spec_spawn(
                            self.next_pieces@[0],
                        ) && m.hold_piece == Some(self.field_piece.piece_state.piece)
                            && m.next_pieces@ == self.next_pieces@.drop_first()
                            && m.movements_history@ == seq![PieceMovement::Hold]
                            && m.has_held
                            && m.time == TIME_HOLD
                    }
                },
            },
    {
        if self.has_held || self.movements_history.len() > 0 {
            return None;
        }

        match self.hold_piece {
            Some(hold_piece) => {
                let mut history: Vec<PieceMovement> = Vec::new();
                history.push(PieceMovement::Hold);
                Some(
                    MovementState {
                        field_piece: FieldPiece::new_from_piece(hold_piece),
                        hold_piece: Some(self.field_piece.piece_state.piece),
                        next_pieces: clone_queue(&self.next_pieces),
                        movements_history: history,
                        has_held: true,
                        time: TIME_HOLD,
                    },
                )
            },
            None => {
                if self.next_pieces.len() == 0 {
                    return None;
                }
                let mut new_next_pieces = clone_queue(&self.next_pieces);
                let first = new_next_pieces.pop_front().unwrap();
                let mut history: Vec<PieceMovement> = Vec::new();
                history.push(PieceMovement::Hold);
                Some(
                    MovementState {
                        field_piece: FieldPiece::new_from_piece(first),
                        hold_piece: Some(self.field_piece.piece_state.piece),
                        next_pieces: new_next_pieces,
                        movements_history: history,
                        has_held: true,
                        time: TIME_HOLD,
                    },
                )
            },
        }
    }
}

/// Hashes exactly the fields that identify a reachable configuration:
/// piece, hold, queue and held flag. Time and history stay out, so two
/// paths to the same configuration hash alike.
///
/// Relies on std's `Hash` and `Hasher`: the body only feeds the canonical
/// fields, in a fixed order, to the caller's hasher.
impl core::hash::Hash for MovementState {
    #[verifier::external_body]
    fn hash<H: core::hash::Hasher>(&self, state: &mut H) {
        self.field_piece.hash(state);
        self.hold_piece.hash(state);
        self.next_pieces.hash(state);
        self.has_held.hash(state);
    }
}

impl Clone for MovementState {
    fn clone(&self) -> (r: Self)
        ensures
            r.field_piece == self.field_piece,
            r.hold_piece == self.hold_piece,
            r.movements_history@ == self.movements_history@,
            r.next_pieces@ == self.next_pieces@,
            r.has_held == self.has_held,
            r.time == self.time,
    {
        MovementState {
            field_piece: self.field_piece,
            hold_piece: self.hold_piece,
            movements_history: clone_movements(&self.movements_history),
            next_pieces: clone_queue(&self.next_pieces),
            has_held: self.has_held,
            time: self.time,
        }
    }
}

/// A row bitmask with all ten columns occupied.
pub const FULL_ROW: u16 = 0x3ff;

/// The bit that column `x` occupies in a row bitmask.
pub open spec fn spec_row_mask(x: int) -> u16 {
    1u16 << (x as u16)
}

/// Whether column `x` is set in the row bitmask `row`.
pub open spec fn row_has(row: u16, x: int) -> bool {
    row & spec_row_mask(x) != 0
}

pub fn row_x(x: i32) -> (r: u16)
    requires
        0 <= x < 16,
    ensures
        r == spec_row_mask(x as int),
{
    1u16 << (x as u16)
}

/// The playing field: one bitmask per row (row 0 at the bottom) and the
/// cached height of each column.
#[derive(Debug, PartialEq, Eq, Hash)]
pub struct Board {
    pub cells: Vec<u16>,
    pub collumn_heights: Vec<u32>,
}

impl Clone for Board {
    fn clone(&self) -> (r: Self)
        ensures
            r.cells@ == self.cells@,
            r.collumn_heights@ == self.collumn_heights@,
    {
        Board {
            cells: clone_rows(&self.cells),
            collumn_heights: clone_heights(&self.collumn_heights),
        }
    }
}

/// Copies a height vector element by element.
pub fn clone_heights(v: &Vec<u32>) -> (r: Vec<u32>)
    ensures
        r@ == v@,
{
    let mut r: Vec<u32> = Vec::new();
    let mut i: usize = 0;
    while i < v.len()
        invariant
            0 <= i <= v@.len(),
            r@ == v@.take(i as int),
        decreases v@.len() - i,
    {
        r.push(v[i]);
        proof {
            assert(v@.take(i + 1) =~= v@.take(i as int).push(v@[i as int]));
        }
        i = i + 1;
    }
    proof {
        assert(v@.take(v@.len() as int) =~= v@);
    }
    r
}

/// A board with zero occupied cells.
pub open spec fn spec_board_empty(b: Board) -> bool {
    forall|y: int| 0 <= y < 40 ==> #[trigger] b.cells@[y] == 0u16
}

/// Whether a cell is occupied; anything outside the ten columns or forty
/// rows counts as occupied, acting as the walls and the floor.
pub open spec fn spec_occupied(b: Board, x: int, y: int) -> bool {
    !(0 <= x < 10) || !(0 <= y < 40) || row_has(b.cells@[y], x)
}

/// Whether a field piece collides nowhere.
pub open spec fn spec_attempt(b: Board, fp: FieldPiece) -> bool {
    forall|k: int|
        0 <= k < 4 ==> !spec_occupied(
            b,
            (#[trigger] spec_field_cells(fp)[k]).0,
            spec_field_cells(fp)[k].1,
        )
}

/// All four cells of the piece lie on the board.
pub open spec fn piece_in_bounds(fp: FieldPiece) -> bool {
    forall|k: int|
        0 <= k < 4 ==> 0 <= (#[trigger] spec_field_cells(fp)[k]).0 < 10 && 0 <= spec_field_cells(
            fp,
        )[k].1 < 40
}

/// The height of column `x` considering only rows below `y`: one above the
/// topmost occupied cell, or zero for an empty column.
pub open spec fn spec_col_height_upto(cells: Seq<u16>, x: int, y: int) -> int
    decreases y,
{
    if y <= 0 {
        0
    } else if row_has(cells[y - 1], x) {
        y
    } else {
        spec_col_height_upto(cells, x, y - 1)
    }
}

pub open spec fn spec_col_height(cells: Seq<u16>, x: int) -> int {
    spec_col_height_upto(cells, x, 40)
}

pub proof fn lemma_col_height_upto_bounds(cells: Seq<u16>, x: int, y: int)
    requires
        y >= 0,
    ensures
        0 <= spec_col_height_upto(cells, x, y) <= y,
    decreases y,
{
    if y > 0 {
        lemma_col_height_upto_bounds(cells, x, y - 1);
    }
}

/// Well-formedness of a board: forty rows of ten columns and ten cached
/// heights that never exceed the board.
pub open spec fn board_wf(b: Board) -> bool {
    &&& b.cells@.len() == 40
    &&& b.collumn_heights@.len() == 10
    &&& (forall|y: int| 0 <= y < 40 ==> #[trigger] b.cells@[y] <= FULL_ROW)
    &&& (forall|x: int| 0 <= x < 10 ==> #[trigger] b.collumn_heights@[x] <= 40)
}

impl Default for Board {
    fn default() -> (r: Board)
        ensures
            r.wf(),
            forall|y: int| 0 <= y < 40 ==> #[trigger] r.cells@[y] == 0u16,
            forall|x: int| 0 <= x < 10 ==> #[trigger] r.collumn_heights@[x] == 0u32,
    {
        Board::new()
    }
}

impl Board {
    pub open spec fn wf(&self) -> bool {
        board_wf(*self)
    }

    pub fn new() -> (r: Board)
        ensures
            r.wf(),
            forall|y: int| 0 <= y < 40 ==> #[trigger] r.cells@[y] == 0u16,
            forall|x: int| 0 <= x < 10 ==> #[trigger] r.collumn_heights@[x] == 0u32,
    {
        let mut cells: Vec<u16> = Vec::new();
        let mut i: usize = 0;
        while i < 40
            invariant
                0 <= i <= 40,
                cells@.len() == i,
                forall|y: int| 0 <= y < i ==> #[trigger] cells@[y] == 0u16,
            decreases 40 - i,
        {
            cells.push(0);
            i = i + 1;
        }
        let mut collumn_heights: Vec<u32> = Vec::new();
        let mut j: usize = 0;
        while j < 10
            invariant
                0 <= j <= 10,
                collumn_heights@.len() == j,
                forall|x: int| 0 <= x < j ==> #[trigger] collumn_heights@[x] == 0u32,
            decreases 10 - j,
        {
            collumn_heights.push(0);
            j = j + 1;
        }
        Board { cells, collumn_heights }
    }

    pub fn occupied(&self, x: i32, y: i32) -> (r: bool)
        requires
            self.wf(),
        ensures
            r == spec_occupied(*self, x as int, y as int),
    {
        if x < 0 || x >= 10 || y < 0 || y >= 40 {
            true
        } else {
            self.cells[y as usize] & row_x(x) > 0
        }
    }

    /// Whether the bottom row is empty; with no floating rows that means the
    /// whole board is empty.
    pub fn is_empty(&self) -> (r: bool)
        requires
            self.wf(),
        ensures
            r == (self.cells@[0] == 0u16),
    {
        self.cells[0] == 0
    }

    /// Whether the board holds no occupied cell at all.
    pub fn all_rows_empty(&self) -> (r: bool)
        requires
            self.wf(),
        ensures
            r == spec_board_empty(*self),
    {
        let mut y: usize = 0;
        let mut empty = true;
        while y < 40
            invariant
                self.wf(),
                0 <= y <= 40,
                empty == (forall|i: int| 0 <= i < y ==> #[trigger] self.cells@[i] == 0u16),
            decreases 40 - y,
        {
            if self.cells[y] != 0 {
                empty = false;
            }
            y = y + 1;
        }
        empty
    }

    /// Whether the piece collides nowhere on this board.
    pub fn attempt(&self, field_piece: FieldPiece) -> (r: bool)
        requires
            self.wf(),
            pos_in_range(field_piece.position),
        ensures
            r == spec_attempt(*self, field_piece),
    {
        let cs = field_piece.cells();
        let r = !self.occupied(cs[0].0, cs[0].1) && !self.occupied(cs[1].0, cs[1].1)
            && !self.occupied(cs[2].0, cs[2].1) && !self.occupied(cs[3].0, cs[3].1);
        r
    }

    /// Recomputes every column height from the occupancy alone.
    pub(crate) fn calc_collumn_heights(&self) -> (r: Vec<u32>)
        requires
            self.wf(),
        ensures
            r@.len() == 10,
            forall|x: int| 0 <= x < 10 ==> #[trigger] r@[x] == spec_col_height(self.cells@, x),
            forall|x: int| 0 <= x < 10 ==> #[trigger] r@[x] <= 40,
    {
        let mut heights: Vec<u32> = Vec::new();
        let mut x: usize = 0;
        while x < 10
            invariant
                self.wf(),
                0 <= x <= 10,
                heights@.len() == x,
                forall|j: int|
                    0 <= j < x ==> #[trigger] heights@[j] == spec_col_height(self.cells@, j),
                forall|j: int| 0 <= j < x ==> #[trigger] heights@[j] <= 40,
            decreases 10 - x,
        {
            let mut y: usize = 40;
            loop
                invariant
                    self.wf(),
                    0 <= y <= 40,
                    0 <= x < 10,
                    spec_col_height(self.cells@, x as int) == spec_col_height_upto(
                        self.cells@,
                        x as int,
                        y as int,
                    ),
                ensures
                    0 <= y <= 40,
                    y as int == spec_col_height(self.cells@, x as int),
                decreases y,
            {
                if y == 0 {
                    break;
                }
                if self.occupied(x as i32, (y - 1) as i32) {
                    break;
                }
                y = y - 1;
            }
            proof {
                lemma_col_height_upto_bounds(self.cells@, x as int, 40);
            }
            heights.push(y as u32);
            x = x + 1;
        }
        heights
    }
}

/// The rows of `rows` with the bit of cell `c` set in its row.
pub open spec fn or_cell(rows: Seq<u16>, c: (int, int)) -> Seq<u16> {
    rows.update(c.1, rows[c.1] | spec_row_mask(c.0))
}

/// The board rows after the four cells of `fp` are merged in.
pub open spec fn spec_rows_with_piece(rows: Seq<u16>, fp: FieldPiece) -> Seq<u16> {
    or_cell(
        or_cell(
            or_cell(or_cell(rows, spec_field_cells(fp)[0]), spec_field_cells(fp)[1]),
            spec_field_cells(fp)[2],
        ),
        spec_field_cells(fp)[3],
    )
}

/// The rows that survive clearing, in order: every row that is not full.
pub open spec fn spec_kept(rows: Seq<u16>) -> Seq<u16>
    decreases rows.len(),
{
    if rows.len() == 0 {
        Seq::empty()
    } else if rows.last() == FULL_ROW {
        spec_kept(rows.drop_last())
    } else {
        spec_kept(rows.drop_last()).push(rows.last())
    }
}

/// The rows after clearing: the surviving rows settle to the bottom and empty
/// rows fill the space the full rows left.
pub open spec fn spec_after_clear(rows: Seq<u16>) -> Seq<u16> {
    spec_kept(rows) + Seq::new((rows.len() - spec_kept(rows).len()) as nat, |i: int| 0u16)
}

/// How many rows clearing removed.
pub open spec fn spec_cleared_count(rows: Seq<u16>) -> int {
    rows.len() - spec_kept(rows).len()
}

pub proof fn lemma_kept_props(rows: Seq<u16>)
    ensures
        spec_kept(rows).len() <= rows.len(),
        forall|i: int| 0 <= i < spec_kept(rows).len() ==> #[trigger] spec_kept(rows)[i] != FULL_ROW,
        forall|i: int|
            0 <= i < spec_kept(rows).len() ==> exists|j: int|
                0 <= j < rows.len() && #[trigger] spec_kept(rows)[i] == rows[j],
    decreases rows.len(),
{
    if rows.len() > 0 {
        lemma_kept_props(rows.drop_last());
        assert forall|i: int| 0 <= i < spec_kept(rows).len() implies exists|j: int|
            0 <= j < rows.len() && #[trigger] spec_kept(rows)[i] == rows[j] by {
            if i < spec_kept(rows.drop_last()).len() {
                let j = choose|j: int|
                    0 <= j < rows.drop_last().len() && spec_kept(rows.drop_last())[i]
                        == rows.drop_last()[j];
                assert(rows.drop_last()[j] == rows[j]);
            } else {
                assert(spec_kept(rows)[i] == rows[rows.len() - 1]);
            }
        }
    }
}

/// Merging a piece bit into a row keeps the row within the ten columns.
pub proof fn lemma_or_mask_bound(row: u16, x: u16)
    by (bit_vector)
    requires
        row <= 0x3ff,
        x < 10,
    ensures
        (row | (1u16 << x)) <= 0x3ff,
        (row | (1u16 << x)) != 0,
{
}

/// Every column bit is set in a full row.
pub proof fn lemma_full_row_bit(x: u16)
    by (bit_vector)
    requires
        x < 10,
    ensures
        0x3ffu16 & (1u16 << x) != 0,
{
}

/// A full row with one bit knocked out holds exactly the other nine columns.
pub proof fn lemma_garbage_row_bit(hole: u16, x: u16)
    by (bit_vector)
    requires
        hole < 10,
        x < 10,
    ensures
        ((0x3ffu16 & !(1u16 << hole)) & (1u16 << x) != 0) <==> (x != hole),
        (0x3ffu16 & !(1u16 << hole)) <= 0x3ff,
{
}

/// The diagonal corner offsets around a T piece's center, clockwise from the
/// top left as seen in the spawn orientation.
pub open spec fn spec_t_corner_offset(k: int) -> (int, int) {
    if k == 0 {
        (-1, 1)
    } else if k == 1 {
        (1, 1)
    } else if k == 2 {
        (1, -1)
    } else {
        (-1, -1)
    }
}

/// Whether corner `k` of the piece, counted in the piece's own frame so that
/// corners 0 and 1 are the two the flat side faces, is occupied.
pub open spec fn spec_corner_occupied(b: Board, fp: FieldPiece, k: int) -> bool {
    let o = spec_t_corner_offset((k + rot_index(fp.piece_state.rotation)) % 4);
    spec_occupied(b, fp.position.0 + o.0, fp.position.1 + o.1)
}

pub open spec fn spec_num_corners(b: Board, fp: FieldPiece) -> int {
    (if spec_corner_occupied(b, fp, 0) {
        1int
    } else {
        0int
    }) + (if spec_corner_occupied(b, fp, 1) {
        1int
    } else {
        0int
    }) + (if spec_corner_occupied(b, fp, 2) {
        1int
    } else {
        0int
    }) + (if spec_corner_occupied(b, fp, 3) {
        1int
    } else {
        0int
    })
}

pub open spec fn spec_is_rotation(m: PieceMovement) -> bool {
    m == PieceMovement::RotateLeft || m == PieceMovement::RotateRight
}

/// T-spin classification applies only when the movement just before the
/// locking drop was a rotation.
pub open spec fn spec_tspin_rotated(ms: MovementState) -> bool {
    ms.movements_history@.len() > 1 && spec_is_rotation(
        ms.movements_history@[ms.movements_history@.len() - 2],
    )
}

/// A T-spin counts as mini when the two corners the flat side faces are not
/// both occupied and the rotation was not resolved by the last-resort kick,
/// the fifth and final offset of the kick list.
pub open spec fn spec_tspin_mini(b: Board, fp: FieldPiece) -> bool {
    (!spec_corner_occupied(b, fp, 0) || !spec_corner_occupied(b, fp, 1))
        && fp.super_rotation_state != Some(4u32)
}

pub open spec fn kind_for_clears(cleared: int) -> PlacementKind {
    if cleared == 1 {
        PlacementKind::Clear1
    } else if cleared == 2 {
        PlacementKind::Clear2
    } else if cleared == 3 {
        PlacementKind::Clear3
    } else if cleared == 4 {
        PlacementKind::Clear4
    } else {
        PlacementKind::NoClear
    }
}

pub open spec fn tspin_kind_for_clears(cleared: int) -> PlacementKind {
    if cleared == 1 {
        PlacementKind::Tspin1
    } else if cleared == 2 {
        PlacementKind::Tspin2
    } else if cleared == 3 {
        PlacementKind::Tspin3
    } else {
        PlacementKind::Tspin
    }
}

pub open spec fn mini_kind_for_clears(cleared: int) -> PlacementKind {
    if cleared == 1 {
        PlacementKind::MiniTspin1
    } else if cleared == 2 {
        PlacementKind::MiniTspin2
    } else {
        PlacementKind::MiniTspin
    }
}

/// A T piece that locked without a final rotation or without enough corners:
/// an ordinary clear, and a T cannot clear four rows.
pub open spec fn t_fallback_kind_for_clears(cleared: int) -> PlacementKind {
    if cleared == 1 {
        PlacementKind::Clear1
    } else if cleared == 2 {
        PlacementKind::Clear2
    } else if cleared == 3 {
        PlacementKind::Clear3
    } else {
        PlacementKind::NoClear
    }
}

/// The classification of a locked placement, judged against the board as it
/// stood before the piece was merged in.
pub open spec fn spec_classify(b: Board, ms: MovementState, cleared: int) -> PlacementKind {
    let fp = ms.field_piece;
    if fp.piece_state.piece != Piece::T {
        kind_for_clears(cleared)
    } else if spec_tspin_rotated(ms) && spec_num_corners(b, fp) >= 3 {
        if spec_tspin_mini(b, fp) {
            mini_kind_for_clears(cleared)
        } else {
            tspin_kind_for_clears(cleared)
        }
    } else {
        t_fallback_kind_for_clears(cleared)
    }
}

/// The rows of `b` after the piece is merged and full rows are cleared.
pub open spec fn spec_place_cells(b: Board, fp: FieldPiece) -> Seq<u16> {
    spec_after_clear(spec_rows_with_piece(b.cells@, fp))
}

/// The classification `place_piece` returns for this movement state.
pub open spec fn spec_place_kind(b: Board, ms: MovementState) -> PlacementKind {
    spec_classify(b, ms, spec_cleared_count(spec_rows_with_piece(b.cells@, ms.field_piece)))
}

impl Board {
    /// Whether the given corner of the piece is occupied on this board.
    fn t_corner_occupied(&self, fp: FieldPiece, k: usize) -> (r: bool)
        requires
            self.wf(),
            pos_in_range(fp.position),
            k < 4,
        ensures
            r == spec_corner_occupied(*self, fp, k as int),
    {
        let rot: usize = match fp.piece_state.rotation {
            RotationState::North => 0,
            RotationState::East => 1,
            RotationState::South => 2,
            RotationState::West => 3,
        };
        let idx = (k + rot) % 4;
        let ox: i32 = if idx == 0 || idx == 3 {
            -1
        } else {
            1
        };
        let oy: i32 = if idx == 0 || idx == 1 {
            1
        } else {
            -1
        };
        self.occupied(fp.position.0 + ox, fp.position.1 + oy)
    }

    /// Locks the piece of `movement_state` into the board: merges its four
    /// cells, collapses every full row, recomputes the column heights, and
    /// classifies the placement. No full row survives.
    pub fn place_piece(&self, movement_state: &MovementState) -> (r: (Board, PlacementKind))
        requires
            self.wf(),
            pos_in_range(movement_state.field_piece.position),
            piece_in_bounds(movement_state.field_piece),
        ensures
            r.0.wf(),
            r.0.cells@ == spec_place_cells(*self, movement_state.field_piece),
            forall|y: int| 0 <= y < 40 ==> #[trigger] r.0.cells@[y] != FULL_ROW,
            forall|x: int|
                0 <= x < 10 ==> #[trigger] r.0.collumn_heights@[x] == spec_col_height(
                    r.0.cells@,
                    x,
                ),
            r.1 == spec_place_kind(*self, *movement_state),
    {
        let fp = movement_state.field_piece;
        let cs = fp.cells();
        let mut new_cells = clone_rows(&self.cells);
        let ghost rows0 = new_cells@;

        let y0 = cs[0].1 as usize;
        let t0 = new_cells[y0] | row_x(cs[0].0);
        new_cells[y0] = t0;
        proof {
            assert(new_cells@ =~= or_cell(rows0, spec_field_cells(fp)[0]));
        }
        let ghost rows1 = new_cells@;
        let y1 = cs[1].1 as usize;
        let t1 = new_cells[y1] | row_x(cs[1].0);
        new_cells[y1] = t1;
        proof {
            assert(new_cells@ =~= or_cell(rows1, spec_field_cells(fp)[1]));
        }
        let ghost rows2 = new_cells@;
        let y2 = cs[2].1 as usize;
        let t2 = new_cells[y2] | row_x(cs[2].0);
        new_cells[y2] = t2;
        proof {
            assert(new_cells@ =~= or_cell(rows2, spec_field_cells(fp)[2]));
        }
        let ghost rows3 = new_cells@;
        let y3 = cs[3].1 as usize;
        let t3 = new_cells[y3] | row_x(cs[3].0);
        new_cells[y3] = t3;
        proof {
            assert(new_cells@ =~= or_cell(rows3, spec_field_cells(fp)[3]));
            assert(new_cells@ =~= spec_rows_with_piece(self.cells@, fp));
        }

        let ghost merged = new_cells@;
        proof {
            assert forall|y: int| 0 <= y < 40 implies #[trigger] merged[y] <= FULL_ROW by {
                lemma_or_mask_bound(self.cells@[y], 0);
                assert(spec_row_mask(spec_field_cells(fp)[0].0) == (1u16 << (spec_field_cells(
                    fp,
                )[0].0 as u16)));
                if self.cells@[y] <= FULL_ROW {
                    lemma_or_mask_bound(self.cells@[y], spec_field_cells(fp)[0].0 as u16);
                }
                if rows1[y] <= FULL_ROW {
                    lemma_or_mask_bound(rows1[y], spec_field_cells(fp)[1].0 as u16);
                }
                if rows2[y] <= FULL_ROW {
                    lemma_or_mask_bound(rows2[y], spec_field_cells(fp)[2].0 as u16);
                }
                if rows3[y] <= FULL_ROW {
                    lemma_or_mask_bound(rows3[y], spec_field_cells(fp)[3].0 as u16);
                }
            }
        }

        // Collapse every full row, sliding the rows above it down.
        let mut cleared: usize = 0;
        let mut y: usize = 0;
        while y < 40
            invariant
                0 <= cleared <= y <= 40,
                new_cells@.len() == 40,
                merged.len() == 40,
                forall|i: int| 0 <= i < 40 ==> #[trigger] merged[i] <= FULL_ROW,
                cleared == y - spec_kept(merged.take(y as int)).len(),
                forall|i: int|
                    0 <= i < y - cleared ==> #[trigger] new_cells@[i] == spec_kept(
                        merged.take(y as int),
                    )[i],
                forall|i: int| y <= i < 40 ==> #[trigger] new_cells@[i] == merged[i],
            decreases 40 - y,
        {
            proof {
                lemma_kept_props(merged.take(y as int));
                assert(merged.take(y + 1).drop_last() =~= merged.take(y as int));
                assert(merged.take(y + 1).last() == merged[y as int]);
            }
            if new_cells[y] == FULL_ROW {
                cleared = cleared + 1;
            } else if cleared > 0 {
                let t = new_cells[y];
                new_cells[y - cleared] = t;
            }
            y = y + 1;
        }
        proof {
            assert(merged.take(40) =~= merged);
            lemma_kept_props(merged);
        }

        // The space the cleared rows left is filled with empty rows on top.
        let mut z: usize = 0;
        while z < cleared
            invariant
                0 <= z <= cleared <= 40,
                new_cells@.len() == 40,
                merged.len() == 40,
                cleared == 40 - spec_kept(merged).len(),
                forall|i: int|
                    0 <= i < 40 - cleared ==> #[trigger] new_cells@[i] == spec_kept(merged)[i],
                forall|i: int| 40 - z <= i < 40 ==> #[trigger] new_cells@[i] == 0u16,
            decreases cleared - z,
        {
            new_cells[39 - z] = 0;
            z = z + 1;
        }
        proof {
            assert(new_cells@ =~= spec_after_clear(merged));
        }

        let mut new_board = Board {
            cells: new_cells,
            collumn_heights: clone_heights(&self.collumn_heights),
        };
        proof {
            lemma_kept_props(merged);
            assert forall|i: int| 0 <= i < 40 implies #[trigger] new_board.cells@[i]
                <= FULL_ROW by {
                if i < spec_kept(merged).len() {
                    let j = choose|j: int|
                        0 <= j < merged.len() && spec_kept(merged)[i] == merged[j];
                    assert(merged[j] <= FULL_ROW);
                }
            }
        }
        let nh = new_board.calc_collumn_heights();
        new_board.collumn_heights = nh;
        proof {
            assert forall|i: int| 0 <= i < 40 implies #[trigger] new_board.cells@[i]
                != FULL_ROW by {
                if i < spec_kept(merged).len() {
                }
            }
        }

        // Classification, judged on the board as it stood before the merge.
        let piece_is_t = matches!(fp.piece_state.piece, Piece::T);
        let placement_kind: PlacementKind = if !piece_is_t {
            match cleared {
                0 => PlacementKind::NoClear,
                1 => PlacementKind::Clear1,
                2 => PlacementKind::Clear2,
                3 => PlacementKind::Clear3,
                4 => PlacementKind::Clear4,
                _ => PlacementKind::NoClear,
            }
        } else {
            let hist_len = movement_state.movements_history.len();
            let rotated_last = hist_len > 1 && matches!(
                movement_state.movements_history[hist_len - 2],
                PieceMovement::RotateLeft | PieceMovement::RotateRight
            );
            let mut tspin = false;
            let mut mini = false;
            if rotated_last {
                let c0 = self.t_corner_occupied(fp, 0);
                let c1 = self.t_corner_occupied(fp, 1);
                let c2 = self.t_corner_occupied(fp, 2);
                let c3 = self.t_corner_occupied(fp, 3);
                let count: u32 = (if c0 {
                    1u32
                } else {
                    0u32
                }) + (if c1 {
                    1u32
                } else {
                    0u32
                }) + (if c2 {
                    1u32
                } else {
                    0u32
                }) + (if c3 {
                    1u32
                } else {
                    0u32
                });
                if count >= 3 {
                    tspin = true;
                    let last_resort = match fp.super_rotation_state {
                        Some(s) => s == 4,
                        None => false,
                    };
                    mini = (!c0 || !c1) && !last_resort;
                }
            }
            if tspin {
                if mini {
                    match cleared {
                        1 => PlacementKind::MiniTspin1,
                        2 => PlacementKind::MiniTspin2,
                        _ => PlacementKind::MiniTspin,
                    }
                } else {
                    match cleared {
                        1 => PlacementKind::Tspin1,
                        2 => PlacementKind::Tspin2,
                        3 => PlacementKind::Tspin3,
                        _ => PlacementKind::Tspin,
                    }
                }
            } else {
                match cleared {
                    1 => PlacementKind::Clear1,
                    2 => PlacementKind::Clear2,
                    3 => PlacementKind::Clear3,
                    _ => PlacementKind::NoClear,
                }
            }
        };

        (new_board, placement_kind)
    }

    /// A full row holding every column but `hole`.
    fn garbage_row_for(hole: u32) -> (r: u16)
        requires
            hole < 10,
        ensures
            r <= FULL_ROW,
            r != FULL_ROW,
            forall|x: int| 0 <= x < 10 ==> (#[trigger] row_has(r, x) <==> x != hole as int),
    {
        let r = FULL_ROW & !row_x(hole as i32);
        proof {
            assert forall|x: int| 0 <= x < 10 implies (#[trigger] row_has(r, x) <==> x
                != hole as int) by {
                lemma_garbage_row_bit(hole as u16, x as u16);
            }
            lemma_garbage_row_bit(hole as u16, hole as u16);
            lemma_full_row_bit(hole as u16);
            assert(!row_has(r, hole as int));
            assert(row_has(FULL_ROW, hole as int));
        }
        r
    }

    /// Injects `garbage` rows at the bottom: every existing row moves up by
    /// that much, and each new bottom row is full except for one hole column;
    /// with some chance successive rows reuse the previous hole column.
    /// Cached heights grow by the same amount, capped at the board's top.
    pub fn receive_garbage(&self, garbage: u32) -> (r: Board)
        requires
            self.wf(),
            garbage <= 40,
        ensures
            r.wf(),
            forall|y: int|
                garbage <= y < 40 ==> #[trigger] r.cells@[y] == self.cells@[y - garbage],
            forall|y: int| 0 <= y < garbage ==> is_garbage_row(#[trigger] r.cells@[y]),
            forall|x: int|
                0 <= x < 10 ==> #[trigger] r.collumn_heights@[x] as int == spec_capped40(
                    self.collumn_heights@[x] + garbage,
                ),
    {
        let mut holes: Vec<u32> = Vec::new();
        if garbage > 0 {
            holes.push(rand_below(10));
            while holes.len() < garbage as usize
                invariant
                    1 <= holes@.len() <= garbage,
                    forall|i: int| 0 <= i < holes@.len() ==> #[trigger] holes@[i] < 10,
                decreases garbage - holes@.len(),
            {
                let prev = holes[holes.len() - 1];
                if rand_below(10) < SAME_HOLE_CHANCE_IN_TEN {
                    holes.push(prev);
                } else {
                    let mut c = rand_below(9);
                    if c >= prev {
                        c = c + 1;
                    }
                    holes.push(c);
                }
            }
        }

        let mut new_cells = clone_rows(&self.cells);
        let mut y: usize = 0;
        while y < 40
            invariant
                0 <= y <= 40,
                self.wf(),
                garbage <= 40,
                new_cells@.len() == 40,
                garbage > 0 ==> holes@.len() == garbage,
                forall|i: int| 0 <= i < holes@.len() ==> #[trigger] holes@[i] < 10,
                forall|i: int|
                    garbage <= i < y ==> #[trigger] new_cells@[i] == self.cells@[i - garbage],
                forall|i: int| 0 <= i < y && i < garbage ==> is_garbage_row(#[trigger] new_cells@[i]),
                forall|i: int| 0 <= i < y && i < garbage ==> #[trigger] new_cells@[i] <= FULL_ROW,
            decreases 40 - y,
        {
            if y >= garbage as usize {
                let t = self.cells[y - garbage as usize];
                new_cells[y] = t;
            } else {
                let row = Board::garbage_row_for(holes[y]);
                new_cells[y] = row;
                proof {
                    let h = holes@[y as int] as int;
                    assert(row_is_full_except(new_cells@[y as int], h));
                    assert(is_garbage_row(new_cells@[y as int]));
                }
            }
            y = y + 1;
        }

        let mut new_heights: Vec<u32> = Vec::new();
        let mut x: usize = 0;
        while x < 10
            invariant
                0 <= x <= 10,
                self.wf(),
                garbage <= 40,
                new_heights@.len() == x,
                forall|j: int|
                    0 <= j < x ==> #[trigger] new_heights@[j] as int == spec_capped40(
                        self.collumn_heights@[j] + garbage,
                    ),
                forall|j: int| 0 <= j < x ==> #[trigger] new_heights@[j] <= 40,
            decreases 10 - x,
        {
            let h = self.collumn_heights[x];
            let mut nh = h + garbage;
            if nh > 40 {
                nh = 40;
            }
            new_heights.push(nh);
            x = x + 1;
        }

        Board { cells: new_cells, collumn_heights: new_heights }
    }
}

/// Whether the row holds every column but `h`.
pub open spec fn row_is_full_except(row: u16, h: int) -> bool {
    forall|x: int| 0 <= x < 10 ==> (#[trigger] row_has(row, x) <==> x != h)
}

/// A row that is full except for exactly one hole column.
pub open spec fn is_garbage_row(row: u16) -> bool {
    exists|h: int| 0 <= h < 10 && #[trigger] row_is_full_except(row, h)
}

/// A cached height never exceeds the forty rows of the board.
pub open spec fn spec_capped40(h: int) -> int {
    if h > 40 {
        40
    } else {
        h
    }
}

/// Two pieces with the same kind, orientation and position occupy the same
/// cells, whatever their lock flag or kick tag.
pub proof fn lemma_same_cells(a: FieldPiece, b: FieldPiece)
    requires
        a.piece_state == b.piece_state,
        a.position == b.position,
    ensures
        spec_field_cells(a) == spec_field_cells(b),
{
    assert(spec_field_cells(a) =~= spec_field_cells(b));
}

/// A piece that collides nowhere lies entirely on the board, and its
/// reference position lies within two cells of it.
pub proof fn lemma_attempt_pos_range(b: Board, fp: FieldPiece)
    requires
        spec_attempt(b, fp),
    ensures
        piece_in_bounds(fp),
        -2 <= fp.position.0 <= 11,
        -2 <= fp.position.1 <= 41,
        pos_in_range(fp.position),
{
    crate::piece::lemma_piece_cells_bounded(fp.piece_state);
    assert(!spec_occupied(b, spec_field_cells(fp)[0].0, spec_field_cells(fp)[0].1));
    assert(spec_field_cells(fp)[0].0 == fp.position.0 + spec_piece_cells(fp.piece_state)[0].0);
    assert(spec_field_cells(fp)[0].1 == fp.position.1 + spec_piece_cells(fp.piece_state)[0].1);
}

/// The piece shifted by a whole step, its kick tag cleared, as `move_by`
/// leaves it.
pub open spec fn spec_moved(fp: FieldPiece, dx: int, dy: int) -> FieldPiece {
    FieldPiece {
        position: (((fp.position.0 + dx) as i32), ((fp.position.1 + dy) as i32)),
        super_rotation_state: None,
        ..fp
    }
}

/// The piece turned in place, as a successful kick-free rotation leaves it:
/// tagged with the first kick, except for the O piece, which rotates
/// without kicks and carries no tag.
pub open spec fn spec_rotated_tagged(fp: FieldPiece, to_left: bool) -> FieldPiece {
    FieldPiece {
        piece_state: PieceState {
            piece: fp.piece_state.piece,
            rotation: if to_left {
                crate::piece::spec_rotate_left(fp.piece_state.rotation)
            } else {
                crate::piece::spec_rotate_right(fp.piece_state.rotation)
            },
        },
        position: fp.position,
        super_rotation_state: if fp.piece_state.piece == Piece::O {
            Option::<u32>::None
        } else {
            Some(0u32)
        },
        is_locked: fp.is_locked,
    }
}

/// Whether some cell of the piece has an occupied cell directly below it, so
/// that the piece cannot fall further.
pub open spec fn rests_on(b: Board, fp: FieldPiece) -> bool {
    exists|k: int|
        0 <= k < 4 && spec_occupied(
            b,
            (#[trigger] spec_field_cells(fp)[k]).0,
            spec_field_cells(fp)[k].1 - 1,
        )
}

/// A resting piece collides one step further down.
pub proof fn lemma_rests_blocks_down(b: Board, fp: FieldPiece)
    requires
        rests_on(b, fp),
        -100 <= fp.position.0 + 0 <= 100,
        -100 <= fp.position.1 - 1 <= 100,
    ensures
        !spec_attempt(b, spec_moved(fp, 0, -1)),
{
    let down = spec_moved(fp, 0, -1);
    let k = choose|k: int|
        0 <= k < 4 && spec_occupied(
            b,
            (#[trigger] spec_field_cells(fp)[k]).0,
            spec_field_cells(fp)[k].1 - 1,
        );
    assert(spec_field_cells(down)[k].0 == spec_field_cells(fp)[k].0);
    assert(spec_field_cells(down)[k].1 == spec_field_cells(fp)[k].1 - 1);
}

/// What `legal_moves` carries over unchanged from the state it expands.
pub open spec fn lm_carried(ms: MovementState, r: MovementState) -> bool {
    &&& r.hold_piece == ms.hold_piece
    &&& r.next_pieces@ == ms.next_pieces@
    &&& r.has_held == ms.has_held
}

/// `k` soft-drop entries in a row, as the collapsed fall records them.
pub open spec fn soft_drop_seq(k: int) -> Seq<PieceMovement> {
    Seq::new(k as nat, |i: int| PieceMovement::SoftDrop)
}

/// The piece can fall `k` whole cells freely: every intermediate position
/// down to the `k`th collides nowhere.
pub open spec fn free_fall(b: Board, fp: FieldPiece, k: int) -> bool {
    forall|d: int| 0 <= d <= k ==> spec_attempt(b, spec_moved(fp, 0, #[trigger] (0 - d)))
}

/// The exact shape of one enumerated step: which piece came out, what the
/// history gained, and what the step cost, one disjunct per elementary
/// action. A lateral move shifts one column for one move unit; a soft drop
/// falls the whole free run of `k` cells for `k` move units, recording `k`
/// entries; a hard drop falls the same run in its own single cost, keeps
/// its column and locks resting; a rotation turns the piece for one rotate
/// unit, ending within the kick range and tagged with a kick index unless
/// the piece is the kickless O.
pub open spec fn lm_move_shape(b: Board, ms: MovementState, r: MovementState) -> bool {
    let fp = ms.field_piece;
    ||| {
        &&& r.field_piece == spec_moved(fp, -1, 0)
        &&& r.movements_history@ == ms.movements_history@.push(PieceMovement::MoveLeft)
        &&& r.time == ms.time + TIME_MOVE_ONE
    }
    ||| {
        &&& r.field_piece == spec_moved(fp, 1, 0)
        &&& r.movements_history@ == ms.movements_history@.push(PieceMovement::MoveRight)
        &&& r.time == ms.time + TIME_MOVE_ONE
    }
    ||| (exists|k: int|
        {
            &&& 1 <= k <= 43
            &&& #[trigger] free_fall(b, fp, k)
            &&& r.field_piece == spec_moved(fp, 0, -k)
            &&& rests_on(b, r.field_piece)
            &&& r.movements_history@ == ms.movements_history@ + soft_drop_seq(k)
            &&& r.time == ms.time + k * TIME_MOVE_ONE
        })
    ||| (exists|k: int|
        {
            &&& 0 <= k <= 43
            &&& #[trigger] free_fall(b, fp, k)
            &&& r.field_piece.is_locked
            &&& r.field_piece.piece_state == fp.piece_state
            &&& r.field_piece.position.0 == fp.position.0
            &&& r.field_piece.position.1 == fp.position.1 - k
            &&& (k == 0 ==> r.field_piece.super_rotation_state == fp.super_rotation_state)
            &&& (k > 0 ==> r.field_piece.super_rotation_state is None)
            &&& rests_on(b, r.field_piece)
            &&& r.movements_history@ == ms.movements_history@.push(PieceMovement::HardDrop)
            &&& r.time == ms.time + TIME_HARD_DROP
        })
    ||| {
        &&& r.field_piece.piece_state.piece == fp.piece_state.piece
        &&& r.field_piece.piece_state.rotation == crate::piece::spec_rotate_left(
            fp.piece_state.rotation,
        )
        &&& !r.field_piece.is_locked
        &&& -2 <= r.field_piece.position.0 - fp.position.0 <= 2
        &&& -2 <= r.field_piece.position.1 - fp.position.1 <= 2
        &&& (fp.piece_state.piece == Piece::O ==> r.field_piece.super_rotation_state is None)
        &&& (fp.piece_state.piece != Piece::O ==> r.field_piece.super_rotation_state is Some
            && r.field_piece.super_rotation_state->0 <= 4)
        &&& r.movements_history@ == ms.movements_history@.push(PieceMovement::RotateLeft)
        &&& r.time == ms.time + TIME_ROTATE
    }
    ||| {
        &&& r.field_piece.piece_state.piece == fp.piece_state.piece
        &&& r.field_piece.piece_state.rotation == crate::piece::spec_rotate_right(
            fp.piece_state.rotation,
        )
        &&& !r.field_piece.is_locked
        &&& -2 <= r.field_piece.position.0 - fp.position.0 <= 2
        &&& -2 <= r.field_piece.position.1 - fp.position.1 <= 2
        &&& (fp.piece_state.piece == Piece::O ==> r.field_piece.super_rotation_state is None)
        &&& (fp.piece_state.piece != Piece::O ==> r.field_piece.super_rotation_state is Some
            && r.field_piece.super_rotation_state->0 <= 4)
        &&& r.movements_history@ == ms.movements_history@.push(PieceMovement::RotateRight)
        &&& r.time == ms.time + TIME_ROTATE
    }
}

/// Every state `legal_moves` returns is one legal step further: the carried
/// fields are unchanged, the piece kind is the same, the piece collides
/// nowhere, time has grown by the step's positive cost, the step has one of
/// the six exact elementary shapes, and a locked result is the hard drop,
/// resting on something, with its drop recorded at the end of the history.
pub open spec fn lm_step_ok(b: Board, ms: MovementState, r: MovementState) -> bool {
    &&& lm_carried(ms, r)
    &&& r.field_piece.piece_state.piece == ms.field_piece.piece_state.piece
    &&& pos_in_range(r.field_piece.position)
    &&& spec_attempt(b, r.field_piece)
    &&& ms.time < r.time <= ms.time + 50
    &&& lm_move_shape(b, ms, r)
    &&& (r.field_piece.is_locked ==> {
        &&& r.field_piece.piece_state == ms.field_piece.piece_state
        &&& r.field_piece.position.0 == ms.field_piece.position.0
        &&& rests_on(b, r.field_piece)
        &&& r.movements_history@ == ms.movements_history@.push(PieceMovement::HardDrop)
        &&& r.time == ms.time + TIME_HARD_DROP
    })
}

/// The wall-kick offsets tried for a rotation, selected by the orientation
/// the piece leaves: one table for the I piece and one shared by the rest,
/// for each rotation direction, each row ending in the last-resort kick.
fn kick_row(piece: Piece, rotation_before: RotationState, to_left: bool) -> (r: [(i32, i32); 5])
    ensures
        forall|k: int| 0 <= k < 5 ==> -2 <= (#[trigger] r@[k]).0 <= 2 && -2 <= r@[k].1 <= 2,
        r@[0].0 == 0 && r@[0].1 == 0,
{
    let is_i = matches!(piece, Piece::I);
    let r: [(i32, i32); 5] = if to_left {
        if is_i {
            match rotation_before {
                RotationState::North => [(0, 0), (-1, 0), (2, 0), (-1, 2), (2, -1)],
                RotationState::East => [(0, 0), (2, 0), (-1, 0), (2, 1), (-1, -2)],
                RotationState::South => [(0, 0), (1, 0), (-2, 0), (1, -2), (-2, 1)],
                RotationState::West => [(0, 0), (1, 0), (-2, 0), (-2, -1), (1, 2)],
            }
        } else {
            match rotation_before {
                RotationState::North => [(0, 0), (1, 0), (1, 1), (0, -2), (1, -2)],
                RotationState::East => [(0, 0), (1, 0), (1, -1), (0, 2), (1, 2)],
                RotationState::South => [(0, 0), (-1, 0), (-1, 1), (0, -2), (-1, -2)],
                RotationState::West => [(0, 0), (-1, 0), (-1, -1), (0, 2), (-1, 2)],
            }
        }
    } else {
        if is_i {
            match rotation_before {
                RotationState::North => [(0, 0), (-2, 0), (1, 0), (-2, -1), (1, 2)],
                RotationState::East => [(0, 0), (-1, 0), (2, 0), (-1, 2), (2, -1)],
                RotationState::South => [(0, 0), (2, 0), (-1, 0), (2, 1), (-1, -2)],
                RotationState::West => [(0, 0), (-2, 0), (1, 0), (1, -2), (-2, 1)],
            }
        } else {
            match rotation_before {
                RotationState::North => [(0, 0), (-1, 0), (-1, 1), (0, -2), (-1, -2)],
                RotationState::East => [(0, 0), (1, 0), (1, -1), (0, 2), (1, 2)],
                RotationState::South => [(0, 0), (1, 0), (1, 1), (0, -2), (1, -2)],
                RotationState::West => [(0, 0), (-2, 0), (-2, -1), (0, 2), (-1, 2)],
            }
        }
    };
    r
}

impl Board {
    /// Drops the piece as far as it falls freely and counts the cells fallen.
    fn drop_to_rest(&self, fp: FieldPiece) -> (r: (FieldPiece, u32))
        requires
            self.wf(),
            spec_attempt(*self, fp),
            !fp.is_locked,
        ensures
            r.0.piece_state == fp.piece_state,
            r.0.position.0 == fp.position.0,
            r.0.position.1 == fp.position.1 - r.1,
            r.0.is_locked == fp.is_locked,
            r.1 == 0 ==> r.0 == fp,
            r.1 > 0 ==> r.0.super_rotation_state is None,
            r.1 <= 43,
            spec_attempt(*self, r.0),
            rests_on(*self, r.0),
            free_fall(*self, fp, r.1 as int),
    {
        proof {
            lemma_attempt_pos_range(*self, fp);
            lemma_same_cells(spec_moved(fp, 0, 0), fp);
            assert(spec_attempt(*self, spec_moved(fp, 0, 0)));
        }
        let mut dropped = fp;
        let mut count: u32 = 0;
        loop
            invariant
                self.wf(),
                dropped.piece_state == fp.piece_state,
                dropped.position.0 == fp.position.0,
                dropped.position.1 == fp.position.1 - count,
                dropped.is_locked == fp.is_locked,
                count == 0 ==> dropped == fp,
                count > 0 ==> dropped.super_rotation_state is None,
                spec_attempt(*self, dropped),
                pos_in_range(dropped.position),
                -2 <= dropped.position.1 <= 41,
                -2 <= fp.position.1 <= 41,
                count <= fp.position.1 + 2,
                free_fall(*self, fp, count as int),
            ensures
                dropped.piece_state == fp.piece_state,
                dropped.position.0 == fp.position.0,
                dropped.position.1 == fp.position.1 - count,
                dropped.is_locked == fp.is_locked,
                count == 0 ==> dropped == fp,
                count > 0 ==> dropped.super_rotation_state is None,
                count <= 43,
                spec_attempt(*self, dropped),
                rests_on(*self, dropped),
                free_fall(*self, fp, count as int),
            decreases dropped.position.1 + 2,
        {
            let down = dropped.move_by(0, -1);
            if !self.attempt(down) {
                proof {
                    // The blocked cell below witnesses that the piece rests.
                    let k = choose|k: int|
                        0 <= k < 4 && spec_occupied(
                            *self,
                            spec_field_cells(down)[k].0,
                            spec_field_cells(down)[k].1,
                        );
                    assert(spec_field_cells(down)[k].0 == spec_field_cells(dropped)[k].0);
                    assert(spec_field_cells(down)[k].1 == spec_field_cells(dropped)[k].1 - 1);
                }
                break;
            }
            proof {
                lemma_attempt_pos_range(*self, down);
                assert(down =~= spec_moved(fp, 0, 0 - (count + 1)));
                assert forall|d: int| 0 <= d <= count + 1 implies spec_attempt(
                    *self,
                    spec_moved(fp, 0, #[trigger] (0 - d)),
                ) by {
                    if d <= count {
                        assert(free_fall(*self, fp, count as int));
                    }
                }
            }
            dropped = down;
            count = count + 1;
        }
        (dropped, count)
    }

    /// Every single-step successor of an unlocked movement state: the lateral
    /// moves, the collapsed soft drop, the locking hard drop, and the two
    /// rotations with their wall kicks, each where it does not collide.
    /// A locked state has no successors.
    #[verifier::rlimit(100)]
    #[verifier::spinoff_prover]
    pub fn legal_moves(&self, movement_state: MovementState) -> (r: Vec<MovementState>)
        requires
            self.wf(),
            !movement_state.field_piece.is_locked ==> spec_attempt(
                *self,
                movement_state.field_piece,
            ),
            movement_state.time + 50 <= u32::MAX,
        ensures
            movement_state.field_piece.is_locked ==> r@.len() == 0,
            forall|i: int|
                0 <= i < r@.len() ==> lm_step_ok(*self, movement_state, #[trigger] r@[i]),
            !movement_state.field_piece.is_locked ==> exists|i: int|
                0 <= i < r@.len() && (#[trigger] r@[i]).field_piece.is_locked && (forall|j: int|
                    0 <= j < r@.len() && j != i ==> !(#[trigger] r@[j]).field_piece.is_locked),
            (!movement_state.field_piece.is_locked && spec_attempt(
                *self,
                spec_moved(movement_state.field_piece, -1, 0),
            )) ==> exists|i: int|
                0 <= i < r@.len() && (#[trigger] r@[i]).field_piece == spec_moved(
                    movement_state.field_piece,
                    -1,
                    0,
                ),
            (!movement_state.field_piece.is_locked && spec_attempt(
                *self,
                spec_moved(movement_state.field_piece, 1, 0),
            )) ==> exists|i: int|
                0 <= i < r@.len() && (#[trigger] r@[i]).field_piece == spec_moved(
                    movement_state.field_piece,
                    1,
                    0,
                ),
            (!movement_state.field_piece.is_locked && spec_attempt(
                *self,
                spec_moved(movement_state.field_piece, 0, -1),
            )) ==> exists|i: int|
                0 <= i < r@.len() && !(#[trigger] r@[i]).field_piece.is_locked
                    && r@[i].field_piece.piece_state == movement_state.field_piece.piece_state
                    && r@[i].field_piece.position.0 == movement_state.field_piece.position.0
                    && rests_on(*self, r@[i].field_piece),
            (!movement_state.field_piece.is_locked && spec_attempt(
                *self,
                spec_rotated_tagged(movement_state.field_piece, true),
            )) ==> exists|i: int|
                0 <= i < r@.len() && (#[trigger] r@[i]).field_piece == spec_rotated_tagged(
                    movement_state.field_piece,
                    true,
                ),
            (!movement_state.field_piece.is_locked && spec_attempt(
                *self,
                spec_rotated_tagged(movement_state.field_piece, false),
            )) ==> exists|i: int|
                0 <= i < r@.len() && (#[trigger] r@[i]).field_piece == spec_rotated_tagged(
                    movement_state.field_piece,
                    false,
                ),
    {
        let mut result: Vec<MovementState> = Vec::new();
        if movement_state.field_piece.is_locked {
            return result;
        }
        proof {
            lemma_attempt_pos_range(*self, movement_state.field_piece);
        }
        let ghost mut left_i: int = -1;
        let ghost mut right_i: int = -1;
        let ghost mut soft_i: int = -1;
        let ghost mut rotl_i: int = -1;
        let ghost mut rotr_i: int = -1;

        // Lateral moves.
        let left = movement_state.field_piece.move_by(-1, 0);
        proof {
            assert(left =~= spec_moved(movement_state.field_piece, -1, 0));
        }
        if self.attempt(left) {
            result.push(
                movement_state.next_movement_state(left, PieceMovement::MoveLeft, TIME_MOVE_ONE),
            );
            proof {
                lemma_attempt_pos_range(*self, left);
                left_i = result@.len() - 1;
                assert(lm_move_shape(*self, movement_state, result@[result@.len() - 1]));
            }
        }
        let right = movement_state.field_piece.move_by(1, 0);
        proof {
            assert(right =~= spec_moved(movement_state.field_piece, 1, 0));
        }
        if self.attempt(right) {
            result.push(
                movement_state.next_movement_state(right, PieceMovement::MoveRight, TIME_MOVE_ONE),
            );
            proof {
                lemma_attempt_pos_range(*self, right);
                right_i = result@.len() - 1;
                assert(lm_move_shape(*self, movement_state, result@[result@.len() - 1]));
            }
        }

        // Soft drop: the whole free fall collapses into one step.
        let (dropped, count) = self.drop_to_rest(movement_state.field_piece);
        proof {
            if count == 0 {
                lemma_rests_blocks_down(*self, movement_state.field_piece);
            }
        }
        if count > 0 {
            let mut moves: Vec<PieceMovement> = Vec::new();
            let mut i: u32 = 0;
            while i < count
                invariant
                    i <= count,
                    moves@ == soft_drop_seq(i as int),
                decreases count - i,
            {
                moves.push(PieceMovement::SoftDrop);
                proof {
                    assert(soft_drop_seq(i + 1) =~= soft_drop_seq(i as int).push(
                        PieceMovement::SoftDrop,
                    ));
                }
                i = i + 1;
            }
            result.push(
                movement_state.next_movement_state_with_movements(
                    dropped,
                    moves,
                    TIME_MOVE_ONE * count,
                ),
            );
            proof {
                soft_i = result@.len() - 1;
                let r_new = result@[result@.len() - 1];
                assert(r_new.field_piece =~= spec_moved(
                    movement_state.field_piece,
                    0,
                    0 - (count as int),
                ));
                assert(free_fall(*self, movement_state.field_piece, count as int));
                assert(lm_move_shape(*self, movement_state, r_new));
            }
        }

        // Hard drop: fall the same way, then lock.
        let mut locked_state = movement_state.next_movement_state(
            dropped,
            PieceMovement::HardDrop,
            TIME_HARD_DROP,
        );
        locked_state.field_piece.is_locked = true;
        proof {
            lemma_same_cells(locked_state.field_piece, dropped);
        }
        result.push(locked_state);
        let ghost locked_index = result@.len() - 1;
        proof {
            let r_new = result@[locked_index];
            assert(free_fall(*self, movement_state.field_piece, count as int));
            assert(lm_move_shape(*self, movement_state, r_new));
        }

        // Rotations, each trying its five wall kicks in order.
        let rotated_left = movement_state.field_piece.rotate_left();
        let kicks = kick_row(
            movement_state.field_piece.piece_state.piece,
            movement_state.field_piece.piece_state.rotation,
            true,
        );
        if matches!(movement_state.field_piece.piece_state.piece, Piece::O) {
            proof {
                assert(rotated_left =~= spec_rotated_tagged(movement_state.field_piece, true));
            }
            if self.attempt(rotated_left) {
                proof {
                    lemma_attempt_pos_range(*self, rotated_left);
                }
                result.push(
                    movement_state.next_movement_state(
                        rotated_left,
                        PieceMovement::RotateLeft,
                        TIME_ROTATE,
                    ),
                );
                proof {
                    rotl_i = result@.len() - 1;
                    assert(lm_move_shape(*self, movement_state, result@[result@.len() - 1]));
                }
            }
        } else {
            let in_place = rotated_left.move_by(kicks[0].0, kicks[0].1);
            let tagged0 = in_place.set_super_rotation_state(0);
            proof {
                assert(tagged0 =~= spec_rotated_tagged(movement_state.field_piece, true));
                lemma_same_cells(tagged0, in_place);
            }
            if self.attempt(in_place) {
                proof {
                    lemma_attempt_pos_range(*self, in_place);
                }
                result.push(
                    movement_state.next_movement_state(
                        tagged0,
                        PieceMovement::RotateLeft,
                        TIME_ROTATE,
                    ),
                );
                proof {
                    rotl_i = result@.len() - 1;
                    assert(tagged0.super_rotation_state == Some(0u32));
                    assert(lm_move_shape(*self, movement_state, result@[result@.len() - 1]));
                }
            } else {
            let mut k: usize = 1;
            while k < 5
                invariant
                    self.wf(),
                    -2 <= rotated_left.position.0 <= 11,
                    -2 <= rotated_left.position.1 <= 41,
                    rotated_left.piece_state.piece
                        == movement_state.field_piece.piece_state.piece,
                    rotated_left.piece_state.rotation == crate::piece::spec_rotate_left(
                        movement_state.field_piece.piece_state.rotation,
                    ),
                    rotated_left.position == movement_state.field_piece.position,
                    movement_state.field_piece.piece_state.piece != Piece::O,
                    !movement_state.field_piece.is_locked,
                    rotated_left.is_locked == movement_state.field_piece.is_locked,
                    movement_state.time + 50 <= u32::MAX,
                    forall|j: int|
                        0 <= j < 5 ==> -2 <= (#[trigger] kicks@[j]).0 <= 2 && -2 <= kicks@[j].1
                            <= 2,
                    forall|i: int|
                        0 <= i < result@.len() ==> lm_step_ok(
                            *self,
                            movement_state,
                            #[trigger] result@[i],
                        ),
                    0 <= locked_index < result@.len(),
                    result@[locked_index].field_piece.is_locked,
                    spec_attempt(*self, spec_moved(movement_state.field_piece, -1, 0))
                        ==> 0 <= left_i < result@.len() && result@[left_i].field_piece
                        == spec_moved(movement_state.field_piece, -1, 0),
                    spec_attempt(*self, spec_moved(movement_state.field_piece, 1, 0))
                        ==> 0 <= right_i < result@.len() && result@[right_i].field_piece
                        == spec_moved(movement_state.field_piece, 1, 0),
                    spec_attempt(*self, spec_moved(movement_state.field_piece, 0, -1))
                        ==> 0 <= soft_i < result@.len()
                        && !result@[soft_i].field_piece.is_locked
                        && result@[soft_i].field_piece.piece_state
                        == movement_state.field_piece.piece_state
                        && result@[soft_i].field_piece.position.0
                        == movement_state.field_piece.position.0
                        && rests_on(*self, result@[soft_i].field_piece),
                    forall|i: int|
                        0 <= i < result@.len() && i != locked_index ==> !(
                        #[trigger] result@[i]).field_piece.is_locked,
                    spec_attempt(*self, spec_rotated_tagged(movement_state.field_piece, true))
                        ==> 0 <= rotl_i < result@.len() && result@[rotl_i].field_piece
                        == spec_rotated_tagged(movement_state.field_piece, true),
                decreases 5 - k,
            {
                let cand = rotated_left.move_by(kicks[k].0, kicks[k].1);
                if self.attempt(cand) {
                    proof {
                        lemma_attempt_pos_range(*self, cand);
                    }
                    let tagged = cand.set_super_rotation_state(k as u32);
                    proof {
                        lemma_same_cells(tagged, cand);
                    }
                    result.push(
                        movement_state.next_movement_state(
                            tagged,
                            PieceMovement::RotateLeft,
                            TIME_ROTATE,
                        ),
                    );
                    proof {
                        assert(tagged.super_rotation_state == Some(k as u32));
                        assert(lm_move_shape(*self, movement_state, result@[result@.len() - 1]));
                    }
                    break;
                }
                k = k + 1;
            }
            }
        }

        let rotated_right = movement_state.field_piece.rotate_right();
        let kicks_r = kick_row(
            movement_state.field_piece.piece_state.piece,
            movement_state.field_piece.piece_state.rotation,
            false,
        );
        if matches!(movement_state.field_piece.piece_state.piece, Piece::O) {
            proof {
                assert(rotated_right =~= spec_rotated_tagged(movement_state.field_piece, false));
            }
            if self.attempt(rotated_right) {
                proof {
                    lemma_attempt_pos_range(*self, rotated_right);
                }
                result.push(
                    movement_state.next_movement_state(
                        rotated_right,
                        PieceMovement::RotateRight,
                        TIME_ROTATE,
                    ),
                );
                proof {
                    rotr_i = result@.len() - 1;
                    assert(lm_move_shape(*self, movement_state, result@[result@.len() - 1]));
                }
            }
        } else {
            let in_place = rotated_right.move_by(kicks_r[0].0, kicks_r[0].1);
            let tagged0 = in_place.set_super_rotation_state(0);
            proof {
                assert(tagged0 =~= spec_rotated_tagged(movement_state.field_piece, false));
                lemma_same_cells(tagged0, in_place);
            }
            if self.attempt(in_place) {
                proof {
                    lemma_attempt_pos_range(*self, in_place);
                }
                result.push(
                    movement_state.next_movement_state(
                        tagged0,
                        PieceMovement::RotateRight,
                        TIME_ROTATE,
                    ),
                );
                proof {
                    rotr_i = result@.len() - 1;
                    assert(tagged0.super_rotation_state == Some(0u32));
                    assert(lm_move_shape(*self, movement_state, result@[result@.len() - 1]));
                }
            } else {
            let mut k: usize = 1;
            while k < 5
                invariant
                    self.wf(),
                    -2 <= rotated_right.position.0 <= 11,
                    -2 <= rotated_right.position.1 <= 41,
                    rotated_right.piece_state.piece
                        == movement_state.field_piece.piece_state.piece,
                    rotated_right.piece_state.rotation == crate::piece::spec_rotate_right(
                        movement_state.field_piece.piece_state.rotation,
                    ),
                    rotated_right.position == movement_state.field_piece.position,
                    movement_state.field_piece.piece_state.piece != Piece::O,
                    !movement_state.field_piece.is_locked,
                    rotated_right.is_locked == movement_state.field_piece.is_locked,
                    movement_state.time + 50 <= u32::MAX,
                    forall|j: int|
                        0 <= j < 5 ==> -2 <= (#[trigger] kicks_r@[j]).0 <= 2 && -2 <= kicks_r@[j].1
                            <= 2,
                    forall|i: int|
                        0 <= i < result@.len() ==> lm_step_ok(
                            *self,
                            movement_state,
                            #[trigger] result@[i],
                        ),
                    0 <= locked_index < result@.len(),
                    result@[locked_index].field_piece.is_locked,
                    spec_attempt(*self, spec_moved(movement_state.field_piece, -1, 0))
                        ==> 0 <= left_i < result@.len() && result@[left_i].field_piece
                        == spec_moved(movement_state.field_piece, -1, 0),
                    spec_attempt(*self, spec_moved(movement_state.field_piece, 1, 0))
                        ==> 0 <= right_i < result@.len() && result@[right_i].field_piece
                        == spec_moved(movement_state.field_piece, 1, 0),
                    spec_attempt(*self, spec_moved(movement_state.field_piece, 0, -1))
                        ==> 0 <= soft_i < result@.len()
                        && !result@[soft_i].field_piece.is_locked
                        && result@[soft_i].field_piece.piece_state
                        == movement_state.field_piece.piece_state
                        && result@[soft_i].field_piece.position.0
                        == movement_state.field_piece.position.0
                        && rests_on(*self, result@[soft_i].field_piece),
                    forall|i: int|
                        0 <= i < result@.len() && i != locked_index ==> !(
                        #[trigger] result@[i]).field_piece.is_locked,
                    spec_attempt(*self, spec_rotated_tagged(movement_state.field_piece, true))
                        ==> 0 <= rotl_i < result@.len() && result@[rotl_i].field_piece
                        == spec_rotated_tagged(movement_state.field_piece, true),
                    spec_attempt(*self, spec_rotated_tagged(movement_state.field_piece, false))
                        ==> 0 <= rotr_i < result@.len() && result@[rotr_i].field_piece
                        == spec_rotated_tagged(movement_state.field_piece, false),
                decreases 5 - k,
            {
                let cand = rotated_right.move_by(kicks_r[k].0, kicks_r[k].1);
                if self.attempt(cand) {
                    proof {
                        lemma_attempt_pos_range(*self, cand);
                    }
                    let tagged = cand.set_super_rotation_state(k as u32);
                    proof {
                        lemma_same_cells(tagged, cand);
                    }
                    result.push(
                        movement_state.next_movement_state(
                            tagged,
                            PieceMovement::RotateRight,
                            TIME_ROTATE,
                        ),
                    );
                    proof {
                        assert(tagged.super_rotation_state == Some(k as u32));
                        assert(lm_move_shape(*self, movement_state, result@[result@.len() - 1]));
                    }
                    break;
                }
                k = k + 1;
            }
            }
        }

        proof {
            if spec_attempt(*self, spec_rotated_tagged(movement_state.field_piece, true)) {
                assert(0 <= rotl_i < result@.len() && result@[rotl_i].field_piece
                    == spec_rotated_tagged(movement_state.field_piece, true));
            }
            if spec_attempt(*self, spec_rotated_tagged(movement_state.field_piece, false)) {
                assert(0 <= rotr_i < result@.len() && result@[rotr_i].field_piece
                    == spec_rotated_tagged(movement_state.field_piece, false));
            }
        }
        result
    }
}

} // verus!
