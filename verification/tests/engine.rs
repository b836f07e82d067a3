use std::collections::VecDeque;
use std::hash::{DefaultHasher, Hash, Hasher};

use tetris_bot::{base_attack, combo_attack, ActionTime, Board, FieldPiece, MovementState, Piece, PieceMovement, PieceState, PlacementKind, RotationState, SpecialAttack, State};

fn empty_state_with(current: Piece, queue: Vec<Piece>) -> State {
    State {
        board: Board::new(),
        current_piece: Some(current),
        hold_piece: None,
        next_pieces: VecDeque::from(queue),
        b2b: false,
        last_action: None,
    }
}

fn count_cells(board: &Board) -> u32 {
    let mut n = 0;
    for y in 0..40 {
        for x in 0..10 {
            if board.occupied(x, y) {
                n += 1;
            }
        }
    }
    n
}

#[test]
fn hash_of_movement_state() {
    let left_movement_state = MovementState::new_from_piece(
        Piece::I,
        Some(Piece::T),
        VecDeque::from(vec![Piece::L, Piece::J]),
    );

    let mut right_movement_state = left_movement_state.clone();

    let mut left_hasher = DefaultHasher::new();
    let mut right_hasher = DefaultHasher::new();

    left_movement_state.hash(&mut left_hasher);
    right_movement_state.hash(&mut right_hasher);

    assert_eq!(left_hasher.finish(), right_hasher.finish());

    right_movement_state
        .movements_history
        .push(PieceMovement::MoveRight);
    right_movement_state.time += 1;

    let mut right_hasher = DefaultHasher::new();
    right_movement_state.hash(&mut right_hasher);

    assert_eq!(left_hasher.finish(), right_hasher.finish());

    let right_movement_state = right_movement_state.hold();
    let mut right_hasher = DefaultHasher::new();
    right_movement_state.hash(&mut right_hasher);

    assert_ne!(left_hasher.finish(), right_hasher.finish());
}

#[test]
fn spawned_piece_has_many_actions() {
    let state = empty_state_with(Piece::T, vec![Piece::O]);
    let actions = state.legal_actions();
    assert!(actions.len() > 1);
}

#[test]
fn legal_actions_is_deterministic() {
    let state = empty_state_with(Piece::S, vec![Piece::Z, Piece::L]);
    let first = state.legal_actions();
    let second = state.legal_actions();
    assert_eq!(first.len(), second.len());
    for (a, b) in first.iter().zip(second.iter()) {
        assert!(a == b);
    }
}

#[test]
fn hard_dropped_i_piece_rests_flat() {
    let state = empty_state_with(Piece::I, vec![]);
    let spawn = MovementState::new_from_piece(Piece::I, None, VecDeque::new());
    let moves = state.board.legal_moves(spawn);
    let locked: Vec<&MovementState> = moves
        .iter()
        .filter(|m| m.field_piece.is_locked)
        .collect();
    assert_eq!(locked.len(), 1);
    let successor = state.next_state(locked[0].clone(), locked[0].time);
    assert_eq!(
        successor.last_action.as_ref().unwrap().placement_kind,
        PlacementKind::NoClear
    );
    assert_eq!(count_cells(&successor.board), 4);
    assert_eq!(successor.last_action.as_ref().unwrap().garbage_sent, 0);
}

#[test]
fn vertical_i_piece_clears_single_row() {
    // The bottom row is full except column 5, and a vertical I piece drops
    // into the gap: one cleared row, no attack without a combo.
    let mut board = Board::new();
    board.cells[0] = 0x3ff & !(1 << 5);
    let locked = FieldPiece {
        piece_state: PieceState { piece: Piece::I, rotation: RotationState::West },
        position: (5, 2),
        super_rotation_state: None,
        is_locked: true,
    };
    let movement = MovementState {
        field_piece: locked,
        hold_piece: None,
        movements_history: vec![PieceMovement::HardDrop],
        next_pieces: VecDeque::new(),
        has_held: false,
        time: 1,
    };
    let state = State {
        board,
        current_piece: Some(Piece::I),
        hold_piece: None,
        next_pieces: VecDeque::new(),
        b2b: false,
        last_action: None,
    };
    let successor = state.next_state(movement, 1);
    let last = successor.last_action.as_ref().unwrap();
    assert_eq!(last.placement_kind, PlacementKind::Clear1);
    assert_eq!(last.garbage_sent, 0);
    // The three cells of the piece above the cleared row settle down one.
    assert_eq!(count_cells(&successor.board), 3);
}

#[test]
fn no_full_row_survives_placement() {
    let mut board = Board::new();
    for y in 0..4 {
        board.cells[y] = 0x3ff & !(1 << 9);
    }
    board.collumn_heights = vec![4, 4, 4, 4, 4, 4, 4, 4, 4, 0];
    let locked = FieldPiece {
        piece_state: PieceState { piece: Piece::I, rotation: RotationState::West },
        position: (9, 2),
        super_rotation_state: None,
        is_locked: true,
    };
    let movement = MovementState {
        field_piece: locked,
        hold_piece: None,
        movements_history: vec![PieceMovement::HardDrop],
        next_pieces: VecDeque::new(),
        has_held: false,
        time: 1,
    };
    let (new_board, kind) = board.place_piece(&movement);
    assert_eq!(kind, PlacementKind::Clear4);
    for y in 0..40 {
        assert!(new_board.cells[y] != 0x3ff);
    }
    // Every cell is gone: the four cleared rows held the whole piece.
    assert_eq!(count_cells(&new_board), 0);
}

#[test]
fn receive_garbage_shifts_and_leaves_one_hole() {
    let mut board = Board::new();
    board.cells[0] = 0b11;
    board.cells[1] = 0b1;
    board.collumn_heights = vec![2, 1, 0, 0, 0, 0, 0, 0, 0, 0];
    let old = board.clone();
    let new_board = board.receive_garbage(5);
    for y in 5..40 {
        assert_eq!(new_board.cells[y], old.cells[y - 5]);
    }
    for y in 0..5 {
        let row = new_board.cells[y];
        assert!(row != 0x3ff);
        assert_eq!(u16::count_ones(row), 9);
    }
    for x in 0..10 {
        assert_eq!(new_board.collumn_heights[x], old.collumn_heights[x] + 5);
    }
}

#[test]
fn state_receive_garbage_keeps_rest() {
    let mut state = empty_state_with(Piece::J, vec![Piece::L]);
    state.receive_garbage(3);
    assert_eq!(state.current_piece, Some(Piece::J));
    assert_eq!(state.next_pieces.len(), 1);
    for y in 0..3 {
        assert_eq!(u16::count_ones(state.board.cells[y]), 9);
    }
    for x in 0..10 {
        assert_eq!(state.board.collumn_heights[x], 3);
    }
}

#[test]
fn hold_swaps_and_is_single_use() {
    let ms = MovementState::new_from_piece(
        Piece::S,
        Some(Piece::Z),
        VecDeque::from(vec![Piece::L]),
    );
    let held = ms.hold().unwrap();
    assert_eq!(held.field_piece.piece_state.piece, Piece::Z);
    assert_eq!(held.hold_piece, Some(Piece::S));
    assert!(held.has_held);
    assert!(held.hold().is_none());

    let no_hold = MovementState::new_from_piece(Piece::S, None, VecDeque::new());
    assert!(no_hold.hold().is_none());

    let from_queue = MovementState::new_from_piece(
        Piece::S,
        None,
        VecDeque::from(vec![Piece::O, Piece::I]),
    );
    let held = from_queue.hold().unwrap();
    assert_eq!(held.field_piece.piece_state.piece, Piece::O);
    assert_eq!(held.hold_piece, Some(Piece::S));
    assert_eq!(held.next_pieces, VecDeque::from(vec![Piece::I]));
}

#[test]
fn dead_state_has_no_actions() {
    let mut state = empty_state_with(Piece::O, vec![Piece::I]);
    // Fill the spawn area so the piece cannot appear.
    for y in 18..23 {
        state.board.cells[y] = 0x3ff;
    }
    assert!(state.is_dead());
    assert_eq!(state.legal_actions().len(), 0);
}

#[test]
fn fresh_states_hold_one_shuffled_bag() {
    let state = State::new_random_state();
    let mut pieces: Vec<Piece> = vec![state.current_piece.unwrap()];
    pieces.extend(state.next_pieces.iter().cloned());
    assert_eq!(pieces.len(), 7);
    for p in [Piece::S, Piece::Z, Piece::J, Piece::L, Piece::T, Piece::O, Piece::I] {
        assert_eq!(pieces.iter().filter(|&&q| q == p).count(), 1);
    }
    assert!(state.board.cells.iter().all(|&row| row == 0));
}

#[test]
fn extend_next_pieces_appends_one_bag() {
    let mut state = empty_state_with(Piece::T, vec![Piece::O]);
    state.extend_next_pieces();
    assert_eq!(state.next_pieces.len(), 8);
    assert_eq!(state.next_pieces[0], Piece::O);
    let appended: Vec<Piece> = state.next_pieces.iter().skip(1).cloned().collect();
    for p in [Piece::S, Piece::Z, Piece::J, Piece::L, Piece::T, Piece::O, Piece::I] {
        assert_eq!(appended.iter().filter(|&&q| q == p).count(), 1);
    }
}

#[test]
fn rotation_is_cyclic_and_inverse() {
    for r in [
        RotationState::North,
        RotationState::East,
        RotationState::South,
        RotationState::West,
    ] {
        assert_eq!(r.rotate_left().rotate_right(), r);
        assert_eq!(r.rotate_right().rotate_left(), r);
        assert_eq!(
            r.rotate_right().rotate_right().rotate_right().rotate_right(),
            r
        );
    }
}

#[test]
fn attack_tables_match_the_ruleset() {
    assert_eq!(base_attack(PlacementKind::NoClear), 0);
    assert_eq!(base_attack(PlacementKind::Clear1), 0);
    assert_eq!(base_attack(PlacementKind::Clear2), 1);
    assert_eq!(base_attack(PlacementKind::Clear3), 2);
    assert_eq!(base_attack(PlacementKind::Clear4), 4);
    assert_eq!(base_attack(PlacementKind::MiniTspin2), 1);
    assert_eq!(base_attack(PlacementKind::Tspin1), 2);
    assert_eq!(base_attack(PlacementKind::Tspin2), 4);
    assert_eq!(base_attack(PlacementKind::Tspin3), 6);
    let expected = [0, 0, 1, 1, 2, 2, 3, 3, 4, 4, 4, 5, 5];
    for (combo, want) in expected.iter().enumerate() {
        assert_eq!(combo_attack(combo as u32), *want);
    }
    assert_eq!(combo_attack(1000), 5);
}

#[test]
fn rotated_t_with_three_corners_is_a_tspin() {
    // A T lying flat-side-down at (1, 1), slotted by a final rotation. The
    // bottom row lacks only the cell the T fills, and three diagonal
    // corners around its center are occupied, both front ones among them.
    let mut board = Board::new();
    board.cells[0] = 0x3ff & !(1 << 1);
    board.cells[2] = 1;
    let movement = MovementState {
        field_piece: FieldPiece {
            piece_state: PieceState { piece: Piece::T, rotation: RotationState::South },
            position: (1, 1),
            super_rotation_state: None,
            is_locked: true,
        },
        hold_piece: None,
        movements_history: vec![PieceMovement::RotateLeft, PieceMovement::HardDrop],
        next_pieces: VecDeque::new(),
        has_held: false,
        time: 2,
    };
    let state = State {
        board,
        current_piece: Some(Piece::T),
        hold_piece: None,
        next_pieces: VecDeque::new(),
        b2b: false,
        last_action: None,
    };
    let successor = state.next_state(movement, 2);
    let last = successor.last_action.as_ref().unwrap();
    assert_eq!(last.placement_kind, PlacementKind::Tspin1);
    assert_eq!(last.garbage_sent, 2);
    assert!(successor.b2b);
}

#[test]
fn rotated_t_missing_a_front_corner_is_mini() {
    // The same slot, but the bottom row stays open and only one of the two
    // front corners is occupied: a zero-row mini T-spin, sending nothing.
    let mut board = Board::new();
    board.cells[0] = 1;
    board.cells[2] = 0b101;
    let movement = MovementState {
        field_piece: FieldPiece {
            piece_state: PieceState { piece: Piece::T, rotation: RotationState::South },
            position: (1, 1),
            super_rotation_state: None,
            is_locked: true,
        },
        hold_piece: None,
        movements_history: vec![PieceMovement::RotateRight, PieceMovement::HardDrop],
        next_pieces: VecDeque::new(),
        has_held: false,
        time: 2,
    };
    let state = State {
        board,
        current_piece: Some(Piece::T),
        hold_piece: None,
        next_pieces: VecDeque::new(),
        b2b: false,
        last_action: None,
    };
    let successor = state.next_state(movement, 2);
    let last = successor.last_action.as_ref().unwrap();
    assert_eq!(last.placement_kind, PlacementKind::MiniTspin);
    assert_eq!(last.garbage_sent, 0);
    assert_eq!(last.combo, 0);
    // A spin that clears nothing leaves the back-to-back flag as it was.
    assert!(!successor.b2b);
}

#[test]
fn unrotated_t_placement_is_an_ordinary_clear() {
    // The very same three-corner slot, but the piece arrived without a
    // final rotation: no spin, just a single clear.
    let mut board = Board::new();
    board.cells[0] = 0x3ff & !(1 << 1);
    board.cells[2] = 1;
    let movement = MovementState {
        field_piece: FieldPiece {
            piece_state: PieceState { piece: Piece::T, rotation: RotationState::South },
            position: (1, 1),
            super_rotation_state: None,
            is_locked: true,
        },
        hold_piece: None,
        movements_history: vec![PieceMovement::MoveLeft, PieceMovement::HardDrop],
        next_pieces: VecDeque::new(),
        has_held: false,
        time: 2,
    };
    let state = State {
        board,
        current_piece: Some(Piece::T),
        hold_piece: None,
        next_pieces: VecDeque::new(),
        b2b: false,
        last_action: None,
    };
    let successor = state.next_state(movement, 2);
    let last = successor.last_action.as_ref().unwrap();
    assert_eq!(last.placement_kind, PlacementKind::Clear1);
    assert!(!successor.b2b);
}

#[test]
fn back_to_back_tetris_earns_the_bonus() {
    let mut board = Board::new();
    for y in 0..4 {
        board.cells[y] = 0x3ff & !(1 << 9);
    }
    // One stray cell above the stack keeps the clear from being perfect.
    board.cells[4] = 1;
    let movement = MovementState {
        field_piece: FieldPiece {
            piece_state: PieceState { piece: Piece::I, rotation: RotationState::West },
            position: (9, 2),
            super_rotation_state: None,
            is_locked: true,
        },
        hold_piece: None,
        movements_history: vec![PieceMovement::HardDrop],
        next_pieces: VecDeque::new(),
        has_held: false,
        time: 1,
    };
    let state = State {
        board,
        current_piece: Some(Piece::I),
        hold_piece: None,
        next_pieces: VecDeque::new(),
        b2b: true,
        last_action: Some(tetris_bot::LastAction {
            placement_kind: PlacementKind::Clear4,
            placed_piece: Piece::I,
            b2b: false,
            combo: 2,
            perfect_clear: false,
            garbage_sent: 4,
            time: 50,
            movements_history: vec![],
        }),
    };
    let successor = state.next_state(movement, 1);
    let last = successor.last_action.as_ref().unwrap();
    assert_eq!(last.placement_kind, PlacementKind::Clear4);
    // Base four, combo three adds one, back-to-back adds one.
    assert_eq!(last.combo, 3);
    assert_eq!(last.garbage_sent, 6);
    assert!(last.b2b);
    assert!(successor.b2b);
}

#[test]
fn perfect_clear_sends_its_fixed_attack() {
    // The whole stack is four rows missing only column 9; clearing them
    // empties the board completely.
    let mut board = Board::new();
    for y in 0..4 {
        board.cells[y] = 0x3ff & !(1 << 9);
    }
    let movement = MovementState {
        field_piece: FieldPiece {
            piece_state: PieceState { piece: Piece::I, rotation: RotationState::West },
            position: (9, 2),
            super_rotation_state: None,
            is_locked: true,
        },
        hold_piece: None,
        movements_history: vec![PieceMovement::HardDrop],
        next_pieces: VecDeque::new(),
        has_held: false,
        time: 1,
    };
    let state = State {
        board,
        current_piece: Some(Piece::I),
        hold_piece: None,
        next_pieces: VecDeque::new(),
        b2b: false,
        last_action: None,
    };
    let successor = state.next_state(movement, 1);
    let last = successor.last_action.as_ref().unwrap();
    assert!(last.perfect_clear);
    assert_eq!(last.placement_kind, PlacementKind::Clear4);
    assert_eq!(last.garbage_sent, 10);
    assert_eq!(last.combo, 1);
    assert_eq!(count_cells(&successor.board), 0);
}

#[test]
fn rule_tables_expose_their_defaults() {
    let times = ActionTime::default_values();
    assert_eq!(times.move_one, 1);
    assert_eq!(times.place, 6);
    assert_eq!(times.tetris, 50);
    let attacks = SpecialAttack::default_values();
    assert_eq!(attacks.b2b, 1);
    assert_eq!(attacks.perfect_clear, 10);
}

#[test]
fn random_play() {
    // Plays random legal placements until the position is lost; every
    // successor the enumeration offers must be playable in turn.
    let mut rng = rand::thread_rng();
    let mut current_state = State::new_random_state();

    loop {
        let legal_actions = current_state.legal_actions();
        if let Some(next_state) = rand::seq::SliceRandom::choose(&legal_actions[..], &mut rng) {
            current_state = next_state.clone();
            if current_state.next_pieces.len() < 8 {
                current_state.extend_next_pieces();
            }
        } else {
            break;
        }
    }
}

#[test]
fn receive_garbage() {
    // Places three random pieces, then takes five rows of garbage.
    let mut rng = rand::thread_rng();
    let mut current_state = State::new_random_state();

    for _ in 0..3 {
        let legal_actions = current_state.legal_actions();
        if let Some(next_state) = rand::seq::SliceRandom::choose(&legal_actions[..], &mut rng) {
            current_state = next_state.clone();
            if current_state.next_pieces.len() < 8 {
                current_state.extend_next_pieces();
            }
        } else {
            break;
        }
    }

    current_state.receive_garbage(5);
    for y in 0..5 {
        assert_eq!(u16::count_ones(current_state.board.cells[y]), 9);
    }
}

#[test]
fn no_clear_placement_keeps_the_chain() {
    // A plain placement that clears nothing neither breaks nor extends the
    // back-to-back chain; a single-line clear breaks it.
    let mut state = empty_state_with(Piece::I, vec![]);
    state.b2b = true;
    let spawn = MovementState::new_from_piece(Piece::I, None, VecDeque::new());
    let moves = state.board.legal_moves(spawn);
    let locked: Vec<&MovementState> = moves.iter().filter(|m| m.field_piece.is_locked).collect();
    let successor = state.next_state(locked[0].clone(), locked[0].time);
    assert_eq!(
        successor.last_action.as_ref().unwrap().placement_kind,
        PlacementKind::NoClear
    );
    assert!(successor.b2b);

    let mut board = Board::new();
    board.cells[0] = 0x3ff & !(1 << 5);
    let clearing = MovementState {
        field_piece: FieldPiece {
            piece_state: PieceState { piece: Piece::I, rotation: RotationState::West },
            position: (5, 2),
            super_rotation_state: None,
            is_locked: true,
        },
        hold_piece: None,
        movements_history: vec![PieceMovement::HardDrop],
        next_pieces: VecDeque::new(),
        has_held: false,
        time: 1,
    };
    let chained = State {
        board,
        current_piece: Some(Piece::I),
        hold_piece: None,
        next_pieces: VecDeque::new(),
        b2b: true,
        last_action: None,
    };
    let successor = chained.next_state(clearing, 1);
    assert_eq!(
        successor.last_action.as_ref().unwrap().placement_kind,
        PlacementKind::Clear1
    );
    assert!(!successor.b2b);
}
