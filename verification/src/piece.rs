//! Piece kinds, orientations, and the cell geometry of each piece.

use vstd::prelude::*;

verus! {

/// The seven tetromino kinds.
#[derive(Clone, Copy, Debug, PartialEq, Eq, Hash, Structural)]
pub enum Piece {
    S,
    Z,
    J,
    L,
    T,
    O,
    I,
}

/// The four orientations a piece can take.
#[derive(Clone, Copy, Debug, PartialEq, Eq, Hash, Structural)]
pub enum RotationState {
    North,
    East,
    South,
    West,
}

/// Spawn position of each piece's reference cell.
pub open spec fn spec_initial_position(piece: Piece) -> (i32, i32) {
    match piece {
        Piece::O => (4i32, 21i32),
        _ => (4i32, 20i32),
    }
}

impl Piece {
    pub fn initial_position(&self) -> (r: (i32, i32))
        ensures
            r == spec_initial_position(*self),
    {
        match self {
            Piece::S => (4, 20),
            Piece::Z => (4, 20),
            Piece::J => (4, 20),
            Piece::L => (4, 20),
            Piece::T => (4, 20),
            Piece::O => (4, 21),
            Piece::I => (4, 20),
        }
    }
}

/// Index of an orientation, used to select kick rows and T-spin corners.
pub open spec fn rot_index(rotation: RotationState) -> int {
    match rotation {
        RotationState::North => 0,
        RotationState::East => 1,
        RotationState::South => 2,
        RotationState::West => 3,
    }
}

pub open spec fn spec_rotate_left(rotation: RotationState) -> RotationState {
    match rotation {
        RotationState::North => RotationState::West,
        RotationState::East => RotationState::North,
        RotationState::South => RotationState::East,
        RotationState::West => RotationState::South,
    }
}

pub open spec fn spec_rotate_right(rotation: RotationState) -> RotationState {
    match rotation {
        RotationState::North => RotationState::East,
        RotationState::East => RotationState::South,
        RotationState::South => RotationState::West,
        RotationState::West => RotationState::North,
    }
}

impl RotationState {
    pub fn rotate_left(&self) -> (r: RotationState)
        ensures
            r == spec_rotate_left(*self),
    {
        match self {
            RotationState::North => RotationState::West,
            RotationState::East => RotationState::North,
            RotationState::South => RotationState::East,
            RotationState::West => RotationState::South,
        }
    }

    pub fn rotate_right(&self) -> (r: RotationState)
        ensures
            r == spec_rotate_right(*self),
    {
        match self {
            RotationState::North => RotationState::East,
            RotationState::East => RotationState::South,
            RotationState::South => RotationState::West,
            RotationState::West => RotationState::North,
        }
    }
}

/// A piece kind together with its current orientation.
#[derive(Clone, Copy, Debug, PartialEq, Eq, Hash, Structural)]
#[verifier::ext_equal]
pub struct PieceState {
    pub piece: Piece,
    pub rotation: RotationState,
}

/// The four cell offsets of a piece in a given orientation, relative to its
/// reference cell.
pub open spec fn spec_piece_cells(ps: PieceState) -> Seq<(i32, i32)> {
    match (ps.piece, ps.rotation) {
        (Piece::S, RotationState::North) => seq![(-1i32, 0i32), (0i32, 0i32), (0i32, 1i32), (1i32, 1i32)],
        (Piece::S, RotationState::East) => seq![(0i32, 1i32), (0i32, 0i32), (1i32, 0i32), (1i32, -1i32)],
        (Piece::S, RotationState::South) => seq![(1i32, 0i32), (0i32, 0i32), (0i32, -1i32), (-1i32, -1i32)],
        (Piece::S, RotationState::West) => seq![(0i32, -1i32), (0i32, 0i32), (-1i32, 0i32), (-1i32, 1i32)],
        (Piece::Z, RotationState::North) => seq![(-1i32, 1i32), (0i32, 1i32), (0i32, 0i32), (1i32, 0i32)],
        (Piece::Z, RotationState::East) => seq![(1i32, 1i32), (1i32, 0i32), (0i32, 0i32), (0i32, -1i32)],
        (Piece::Z, RotationState::South) => seq![(1i32, -1i32), (0i32, -1i32), (0i32, 0i32), (-1i32, 0i32)],
        (Piece::Z, RotationState::West) => seq![(-1i32, -1i32), (-1i32, 0i32), (0i32, 0i32), (0i32, 1i32)],
        (Piece::J, RotationState::North) => seq![(-1i32, 0i32), (0i32, 0i32), (1i32, 0i32), (-1i32, 1i32)],
        (Piece::J, RotationState::East) => seq![(0i32, 1i32), (0i32, 0i32), (0i32, -1i32), (1i32, 1i32)],
        (Piece::J, RotationState::South) => seq![(1i32, 0i32), (0i32, 0i32), (-1i32, 0i32), (1i32, -1i32)],
        (Piece::J, RotationState::West) => seq![(0i32, -1i32), (0i32, 0i32), (0i32, 1i32), (-1i32, -1i32)],
        (Piece::L, RotationState::North) => seq![(-1i32, 0i32), (0i32, 0i32), (1i32, 0i32), (1i32, 1i32)],
        (Piece::L, RotationState::East) => seq![(0i32, 1i32), (0i32, 0i32), (0i32, -1i32), (1i32, -1i32)],
        (Piece::L, RotationState::South) => seq![(1i32, 0i32), (0i32, 0i32), (-1i32, 0i32), (-1i32, -1i32)],
        (Piece::L, RotationState::West) => seq![(0i32, -1i32), (0i32, 0i32), (0i32, 1i32), (-1i32, 1i32)],
        (Piece::T, RotationState::North) => seq![(-1i32, 0i32), (0i32, 0i32), (1i32, 0i32), (0i32, 1i32)],
        (Piece::T, RotationState::East) => seq![(0i32, 1i32), (0i32, 0i32), (0i32, -1i32), (1i32, 0i32)],
        (Piece::T, RotationState::South) => seq![(1i32, 0i32), (0i32, 0i32), (-1i32, 0i32), (0i32, -1i32)],
        (Piece::T, RotationState::West) => seq![(0i32, -1i32), (0i32, 0i32), (0i32, 1i32), (-1i32, 0i32)],
        (Piece::O, RotationState::North) => seq![(0i32, 0i32), (1i32, 0i32), (0i32, -1i32), (1i32, -1i32)],
        (Piece::O, RotationState::East) => seq![(0i32, 0i32), (0i32, -1i32), (-1i32, 0i32), (-1i32, -1i32)],
        (Piece::O, RotationState::South) => seq![(0i32, 0i32), (-1i32, 0i32), (0i32, 1i32), (-1i32, 1i32)],
        (Piece::O, RotationState::West) => seq![(0i32, 0i32), (0i32, 1i32), (1i32, 0i32), (1i32, 1i32)],
        (Piece::I, RotationState::North) => seq![(-1i32, 0i32), (0i32, 0i32), (1i32, 0i32), (2i32, 0i32)],
        (Piece::I, RotationState::East) => seq![(1i32, 1i32), (1i32, 0i32), (1i32, -1i32), (1i32, -2i32)],
        (Piece::I, RotationState::South) => seq![(2i32, -1i32), (1i32, -1i32), (0i32, -1i32), (-1i32, -1i32)],
        (Piece::I, RotationState::West) => seq![(0i32, -2i32), (0i32, -1i32), (0i32, 0i32), (0i32, 1i32)],
    }
}

/// Every cell offset lies within two cells of the reference cell.
pub proof fn lemma_piece_cells_bounded(ps: PieceState)
    ensures
        spec_piece_cells(ps).len() == 4,
        forall|k: int|
            0 <= k < 4 ==> -2 <= (#[trigger] spec_piece_cells(ps)[k]).0 <= 2
                && -2 <= spec_piece_cells(ps)[k].1 <= 2,
{
}

impl PieceState {
    pub fn rotate_left(&self) -> (r: PieceState)
        ensures
            r.piece == self.piece,
            r.rotation == spec_rotate_left(self.rotation),
    {
        PieceState { piece: self.piece, rotation: self.rotation.rotate_left() }
    }

    pub fn rotate_right(&self) -> (r: PieceState)
        ensures
            r.piece == self.piece,
            r.rotation == spec_rotate_right(self.rotation),
    {
        PieceState { piece: self.piece, rotation: self.rotation.rotate_right() }
    }

    pub fn cells(&self) -> (r: [(i32, i32); 4])
        ensures
            r@ == spec_piece_cells(*self),
    {
        let r: [(i32, i32); 4] = match (self.piece, self.rotation) {
            (Piece::S, RotationState::North) => [(-1, 0), (0, 0), (0, 1), (1, 1)],
            (Piece::S, RotationState::East) => [(0, 1), (0, 0), (1, 0), (1, -1)],
            (Piece::S, RotationState::South) => [(1, 0), (0, 0), (0, -1), (-1, -1)],
            (Piece::S, RotationState::West) => [(0, -1), (0, 0), (-1, 0), (-1, 1)],
            (Piece::Z, RotationState::North) => [(-1, 1), (0, 1), (0, 0), (1, 0)],
            (Piece::Z, RotationState::East) => [(1, 1), (1, 0), (0, 0), (0, -1)],
            (Piece::Z, RotationState::South) => [(1, -1), (0, -1), (0, 0), (-1, 0)],
            (Piece::Z, RotationState::West) => [(-1, -1), (-1, 0), (0, 0), (0, 1)],
            (Piece::J, RotationState::North) => [(-1, 0), (0, 0), (1, 0), (-1, 1)],
            (Piece::J, RotationState::East) => [(0, 1), (0, 0), (0, -1), (1, 1)],
            (Piece::J, RotationState::South) => [(1, 0), (0, 0), (-1, 0), (1, -1)],
            (Piece::J, RotationState::West) => [(0, -1), (0, 0), (0, 1), (-1, -1)],
            (Piece::L, RotationState::North) => [(-1, 0), (0, 0), (1, 0), (1, 1)],
            (Piece::L, RotationState::East) => [(0, 1), (0, 0), (0, -1), (1, -1)],
            (Piece::L, RotationState::South) => [(1, 0), (0, 0), (-1, 0), (-1, -1)],
            (Piece::L, RotationState::West) => [(0, -1), (0, 0), (0, 1), (-1, 1)],
            (Piece::T, RotationState::North) => [(-1, 0), (0, 0), (1, 0), (0, 1)],
            (Piece::T, RotationState::East) => [(0, 1), (0, 0), (0, -1), (1, 0)],
            (Piece::T, RotationState::South) => [(1, 0), (0, 0), (-1, 0), (0, -1)],
            (Piece::T, RotationState::West) => [(0, -1), (0, 0), (0, 1), (-1, 0)],
            (Piece::O, RotationState::North) => [(0, 0), (1, 0), (0, -1), (1, -1)],
            (Piece::O, RotationState::East) => [(0, 0), (0, -1), (-1, 0), (-1, -1)],
            (Piece::O, RotationState::South) => [(0, 0), (-1, 0), (0, 1), (-1, 1)],
            (Piece::O, RotationState::West) => [(0, 0), (0, 1), (1, 0), (1, 1)],
            (Piece::I, RotationState::North) => [(-1, 0), (0, 0), (1, 0), (2, 0)],
            (Piece::I, RotationState::East) => [(1, 1), (1, 0), (1, -1), (1, -2)],
            (Piece::I, RotationState::South) => [(2, -1), (1, -1), (0, -1), (-1, -1)],
            (Piece::I, RotationState::West) => [(0, -2), (0, -1), (0, 0), (0, 1)],
        };
        proof {
            assert(r@ =~= spec_piece_cells(*self));
        }
        r
    }
}

/// A piece placed on the field: orientation, absolute position, the kick
/// index that resolved its last rotation (if any), and whether it has locked.
#[derive(Clone, Copy, Debug, PartialEq, Eq, Hash)]
#[verifier::ext_equal]
pub struct FieldPiece {
    pub piece_state: PieceState,
    pub position: (i32, i32),
    pub super_rotation_state: Option<u32>,
    pub is_locked: bool,
}

/// Positions the movement search can ever produce stay far inside this range,
/// which keeps every cell coordinate free of overflow.
pub open spec fn pos_in_range(position: (i32, i32)) -> bool {
    -100 <= position.0 <= 100 && -100 <= position.1 <= 100
}

/// The four absolute cells a field piece occupies, as mathematical integers.
pub open spec fn spec_field_cells(fp: FieldPiece) -> Seq<(int, int)> {
    spec_piece_cells(fp.piece_state).map_values(
        |o: (i32, i32)| (fp.position.0 + o.0, fp.position.1 + o.1),
    )
}

impl FieldPiece {
    /// The freshly spawned, unrotated piece at its spawn position.
    pub open spec fn spec_spawn(piece: Piece) -> FieldPiece {
        FieldPiece {
            piece_state: PieceState { piece, rotation: RotationState::North },
            position: spec_initial_position(piece),
            super_rotation_state: None,
            is_locked: false,
        }
    }

    pub fn new_from_piece(piece: Piece) -> (r: FieldPiece)
        ensures
            r == FieldPiece::spec_spawn(piece),
            pos_in_range(r.position),
    {
        FieldPiece {
            piece_state: PieceState { piece, rotation: RotationState::North },
            position: piece.initial_position(),
            super_rotation_state: None,
            is_locked: false,
        }
    }

    pub fn cells(&self) -> (r: [(i32, i32); 4])
        requires
            pos_in_range(self.position),
        ensures
            r@.len() == 4,
            forall|k: int|
                0 <= k < 4 ==> (#[trigger] r@[k]).0 == spec_field_cells(*self)[k].0
                    && r@[k].1 == spec_field_cells(*self)[k].1,
    {
        proof {
            lemma_piece_cells_bounded(self.piece_state);
        }
        let cs = self.piece_state.cells();
        let r: [(i32, i32); 4] = [
            (cs[0].0 + self.position.0, cs[0].1 + self.position.1),
            (cs[1].0 + self.position.0, cs[1].1 + self.position.1),
            (cs[2].0 + self.position.0, cs[2].1 + self.position.1),
            (cs[3].0 + self.position.0, cs[3].1 + self.position.1),
        ];
        r
    }

    pub fn move_by(&self, dx: i32, dy: i32) -> (r: FieldPiece)
        requires
            pos_in_range(self.position),
            -10 <= dx <= 10,
            -100 <= dy <= 100,
        ensures
            r.piece_state == self.piece_state,
            r.position.0 == self.position.0 + dx,
            r.position.1 == self.position.1 + dy,
            r.super_rotation_state is None,
            r.is_locked == self.is_locked,
    {
        FieldPiece {
            position: (self.position.0 + dx, self.position.1 + dy),
            super_rotation_state: None,
            ..*self
        }
    }

    pub fn rotate_left(&self) -> (r: FieldPiece)
        ensures
            r.piece_state.piece == self.piece_state.piece,
            r.piece_state.rotation == spec_rotate_left(self.piece_state.rotation),
            r.position == self.position,
            r.super_rotation_state is None,
            r.is_locked == self.is_locked,
    {
        FieldPiece {
            piece_state: self.piece_state.rotate_left(),
            super_rotation_state: None,
            ..*self
        }
    }

    pub fn rotate_right(&self) -> (r: FieldPiece)
        ensures
            r.piece_state.piece == self.piece_state.piece,
            r.piece_state.rotation == spec_rotate_right(self.piece_state.rotation),
            r.position == self.position,
            r.super_rotation_state is None,
            r.is_locked == self.is_locked,
    {
        FieldPiece {
            piece_state: self.piece_state.rotate_right(),
            super_rotation_state: None,
            ..*self
        }
    }

    pub fn set_super_rotation_state(&self, state: u32) -> (r: FieldPiece)
        ensures
            r.piece_state == self.piece_state,
            r.position == self.position,
            r.super_rotation_state == Some(state),
            r.is_locked == self.is_locked,
    {
        FieldPiece { super_rotation_state: Some(state), ..*self }
    }
}

/// One elementary action of the movement search.
#[derive(Clone, Copy, Debug, PartialEq, Eq, Hash, Structural)]
pub enum PieceMovement {
    MoveLeft,
    MoveRight,
    SoftDrop,
    HardDrop,
    RotateLeft,
    RotateRight,
    Hold,
}

} // verus!
