//! Game state: board, active piece, hold slot, queue and clear bookkeeping,
//! and the enumeration of every reachable successor state.

use vstd::prelude::*;
use std::collections::{HashMap, VecDeque};
use crate::board::{
    Board, FULL_ROW, MovementState, Time, clone_movements, clone_queue, lm_step_ok, rests_on,
    spec_attempt, spec_place_cells, spec_place_kind,
};
use crate::piece::{FieldPiece, Piece, PieceMovement, pos_in_range};
use crate::rng::shuffle_pieces;
use crate::rule::{
    ATTACK_B2B, ATTACK_PERFECT_CLEAR, base_attack, combo_attack, is_b2b_enabled, TIME_DOUBLE, TIME_PERFECT_CLEAR, TIME_PLACE, TIME_SINGLE,
    TIME_TETRIS, TIME_TRIPLE, spec_base_attack, spec_combo_attack, spec_is_b2b_enabled,
};

verus! {

broadcast use vstd::std_specs::hash::group_hash_axioms;

/// Classification of one locked placement.
#[derive(Clone, Copy, Debug, PartialEq, Eq, Hash, Structural)]
pub enum PlacementKind {
    NoClear,
    Clear1,
    Clear2,
    Clear3,
    Clear4,
    MiniTspin,
    MiniTspin1,
    MiniTspin2,
    Tspin,
    Tspin1,
    Tspin2,
    Tspin3,
}

/// Summary of the most recent placement.
#[derive(Debug, PartialEq, Eq, Hash)]
pub struct LastAction {
    pub placement_kind: PlacementKind,
    pub placed_piece: Piece,
    pub b2b: bool,
    pub combo: u32,
    pub perfect_clear: bool,
    pub garbage_sent: u32,
    pub time: u32,
    pub movements_history: Vec<PieceMovement>,
}

impl Clone for LastAction {
    fn clone(&self) -> (r: Self)
        ensures
            r.placement_kind == self.placement_kind,
            r.placed_piece == self.placed_piece,
            r.b2b == self.b2b,
            r.combo == self.combo,
            r.perfect_clear == self.perfect_clear,
            r.garbage_sent == self.garbage_sent,
            r.time == self.time,
            r.movements_history@ == self.movements_history@,
    {
        LastAction {
            placement_kind: self.placement_kind,
            placed_piece: self.placed_piece,
            b2b: self.b2b,
            combo: self.combo,
            perfect_clear: self.perfect_clear,
            garbage_sent: self.garbage_sent,
            time: self.time,
            movements_history: clone_movements(&self.movements_history),
        }
    }
}

/// Placement classifications that clear no rows on a board that holds no
/// full row: the plain non-clearing lock and the zero-row spins.
pub open spec fn spec_kind_clears_nothing(kind: PlacementKind) -> bool {
    kind == PlacementKind::NoClear || kind == PlacementKind::Tspin || kind
        == PlacementKind::MiniTspin
}

/// The extra time a placement costs, by how much it cleared.
pub open spec fn spec_action_time_for(kind: PlacementKind) -> u32 {
    match kind {
        PlacementKind::Clear1 => TIME_SINGLE,
        PlacementKind::MiniTspin1 => TIME_SINGLE,
        PlacementKind::Tspin1 => TIME_SINGLE,
        PlacementKind::Clear2 => TIME_DOUBLE,
        PlacementKind::MiniTspin2 => TIME_DOUBLE,
        PlacementKind::Tspin2 => TIME_DOUBLE,
        PlacementKind::Clear3 => TIME_TRIPLE,
        PlacementKind::Tspin3 => TIME_TRIPLE,
        PlacementKind::Clear4 => TIME_TETRIS,
        _ => TIME_PLACE,
    }
}

/// The combo the successor records when its placement cleared rows and did
/// not empty the board.
pub open spec fn spec_next_combo(last_action: Option<LastAction>) -> int {
    match last_action {
        Some(la) => if la.combo == u32::MAX {
            la.combo as int
        } else {
            la.combo + 1
        },
        None => 0,
    }
}

/// The full game state between two placements.
#[derive(Debug, PartialEq, Eq, Hash)]
pub struct State {
    pub board: Board,
    pub current_piece: Option<Piece>,
    pub hold_piece: Option<Piece>,
    pub next_pieces: VecDeque<Piece>,
    pub b2b: bool,
    pub last_action: Option<LastAction>,
}

/// Whether two recorded last actions carry the same facts.
pub open spec fn last_action_matches(a: Option<LastAction>, b: Option<LastAction>) -> bool {
    match (a, b) {
        (Some(x), Some(y)) => {
            &&& x.placement_kind == y.placement_kind
            &&& x.placed_piece == y.placed_piece
            &&& x.b2b == y.b2b
            &&& x.combo == y.combo
            &&& x.perfect_clear == y.perfect_clear
            &&& x.garbage_sent == y.garbage_sent
            &&& x.time == y.time
            &&& x.movements_history@ == y.movements_history@
        },
        (None, None) => true,
        _ => false,
    }
}

impl Clone for State {
    fn clone(&self) -> (r: Self)
        ensures
            r.board.cells@ == self.board.cells@,
            r.board.collumn_heights@ == self.board.collumn_heights@,
            r.current_piece == self.current_piece,
            r.hold_piece == self.hold_piece,
            r.next_pieces@ == self.next_pieces@,
            r.b2b == self.b2b,
            last_action_matches(r.last_action, self.last_action),
            spec_successor_ok(*self) ==> spec_successor_ok(r),
    {
        let last_action = match &self.last_action {
            Some(la) => Some(la.clone()),
            None => None,
        };
        State {
            board: self.board.clone(),
            current_piece: self.current_piece,
            hold_piece: self.hold_piece,
            next_pieces: clone_queue(&self.next_pieces),
            b2b: self.b2b,
            last_action,
        }
    }
}

/// One of each of the seven pieces.
pub open spec fn spec_seven_bag() -> Seq<Piece> {
    seq![Piece::S, Piece::Z, Piece::J, Piece::L, Piece::T, Piece::O, Piece::I]
}

/// A freshly shuffled bag holding each of the seven pieces once.
fn fresh_bag() -> (r: Vec<Piece>)
    ensures
        r@.len() == 7,
        r@.to_multiset() == spec_seven_bag().to_multiset(),
{
    let mut bag: Vec<Piece> = Vec::new();
    bag.push(Piece::S);
    bag.push(Piece::Z);
    bag.push(Piece::J);
    bag.push(Piece::L);
    bag.push(Piece::T);
    bag.push(Piece::O);
    bag.push(Piece::I);
    proof {
        assert(bag@ =~= spec_seven_bag());
    }
    shuffle_pieces(&mut bag);
    bag
}

impl State {
    /// An empty board about to play a freshly shuffled seven-piece bag: the
    /// first piece of the bag is active and the rest are the queue.
    pub fn new_random_state() -> (r: State)
        ensures
            r.board.wf(),
            forall|y: int| 0 <= y < 40 ==> #[trigger] r.board.cells@[y] == 0u16,
            r.current_piece is Some,
            r.hold_piece is None,
            r.next_pieces@.len() == 6,
            (seq![r.current_piece->0] + r.next_pieces@).to_multiset()
                == spec_seven_bag().to_multiset(),
            !r.b2b,
            r.last_action is None,
    {
        let bag = fresh_bag();
        let current = bag[0];
        let mut next_pieces: VecDeque<Piece> = VecDeque::new();
        let mut i: usize = 1;
        while i < 7
            invariant
                1 <= i <= 7,
                bag@.len() == 7,
                next_pieces@ == bag@.subrange(1, i as int),
            decreases 7 - i,
        {
            next_pieces.push_back(bag[i]);
            proof {
                assert(bag@.subrange(1, i + 1) =~= bag@.subrange(1, i as int).push(bag@[i as int]));
            }
            i = i + 1;
        }
        let r = State {
            board: Board::new(),
            current_piece: Some(current),
            hold_piece: None,
            next_pieces,
            b2b: false,
            last_action: None,
        };
        proof {
            assert(seq![r.current_piece->0] + r.next_pieces@ =~= bag@);
        }
        r
    }

    /// Appends one freshly shuffled seven-piece bag to the queue; everything
    /// else stays as it was.
    pub fn extend_next_pieces(&mut self)
        ensures
            final(self).next_pieces@.len() == old(self).next_pieces@.len() + 7,
            final(self).next_pieces@.take(old(self).next_pieces@.len() as int) == old(
                self,
            ).next_pieces@,
            final(self).next_pieces@.skip(old(self).next_pieces@.len() as int).to_multiset()
                == spec_seven_bag().to_multiset(),
            final(self).board == old(self).board,
            final(self).current_piece == old(self).current_piece,
            final(self).hold_piece == old(self).hold_piece,
            final(self).b2b == old(self).b2b,
            final(self).last_action == old(self).last_action,
    {
        let bag = fresh_bag();
        let ghost base = self.next_pieces@;
        let mut i: usize = 0;
        while i < 7
            invariant
                0 <= i <= 7,
                bag@.len() == 7,
                self.next_pieces@ == base + bag@.take(i as int),
                base == old(self).next_pieces@,
                self.board == old(self).board,
                self.current_piece == old(self).current_piece,
                self.hold_piece == old(self).hold_piece,
                self.b2b == old(self).b2b,
                self.last_action == old(self).last_action,
            decreases 7 - i,
        {
            self.next_pieces.push_back(bag[i]);
            proof {
                assert(bag@.take(i + 1) =~= bag@.take(i as int).push(bag@[i as int]));
                assert(base + bag@.take(i as int).push(bag@[i as int]) =~= (base + bag@.take(
                    i as int,
                )).push(bag@[i as int]));
            }
            i = i + 1;
        }
        proof {
            assert(bag@.take(7) =~= bag@);
            assert((base + bag@).take(base.len() as int) =~= base);
            assert((base + bag@).skip(base.len() as int) =~= bag@);
        }
    }

    /// Injects garbage rows at the bottom of the board; the rest of the
    /// state is untouched.
    pub fn receive_garbage(&mut self, garbage: u32)
        requires
            old(self).board.wf(),
            garbage <= 40,
        ensures
            final(self).board.wf(),
            forall|y: int|
                garbage <= y < 40 ==> #[trigger] final(self).board.cells@[y] == old(
                    self,
                ).board.cells@[y - garbage],
            forall|y: int|
                0 <= y < garbage ==> crate::board::is_garbage_row(
                    #[trigger] final(self).board.cells@[y],
                ),
            forall|x: int|
                0 <= x < 10 ==> #[trigger] final(self).board.collumn_heights@[x] as int
                    == crate::board::spec_capped40(old(self).board.collumn_heights@[x] + garbage),
            final(self).current_piece == old(self).current_piece,
            final(self).hold_piece == old(self).hold_piece,
            final(self).next_pieces@ == old(self).next_pieces@,
            final(self).b2b == old(self).b2b,
            final(self).last_action == old(self).last_action,
    {
        self.board = self.board.receive_garbage(garbage);
    }

    /// Whether the active piece cannot even spawn: the position is lost.
    pub fn is_dead(&self) -> (r: bool)
        requires
            self.board.wf(),
            self.current_piece is Some,
        ensures
            r == !spec_attempt(self.board, FieldPiece::spec_spawn(self.current_piece->0)),
    {
        let current = self.current_piece.unwrap();
        let initial_movement_state = MovementState::new_from_piece(
            current,
            self.hold_piece,
            clone_queue(&self.next_pieces),
        );
        !self.board.attempt(initial_movement_state.field_piece)
    }

    /// The successor state once a locked movement state is placed: the new
    /// board comes from `place_piece`, the queue advances into the active
    /// slot, and the clear bookkeeping follows the placement classification.
    /// A placement that clears nothing resets the combo, sends nothing and
    /// leaves the back-to-back flag as it was; a perfect clear sends its
    /// fixed attack; any other clear sends the base attack for its kind plus
    /// the combo attack plus the back-to-back bonus when both that chain's
    /// clears qualify, and sets the flag by whether its kind qualifies.
    pub fn next_state(&self, movement_state: MovementState, time: Time) -> (r: State)
        requires
            self.board.wf(),
            pos_in_range(movement_state.field_piece.position),
            crate::board::piece_in_bounds(movement_state.field_piece),
            time + 50 <= u32::MAX,
        ensures
            r.board.wf(),
            forall|y: int| 0 <= y < 40 ==> #[trigger] r.board.cells@[y] != FULL_ROW,
            forall|x: int|
                0 <= x < 10 ==> #[trigger] r.board.collumn_heights@[x]
                    == crate::board::spec_col_height(r.board.cells@, x),
            spec_next_state_ok(*self, movement_state, time, r),
    {
        let (new_board, placement_kind) = self.board.place_piece(&movement_state);
        let zero_kind = matches!(
            placement_kind,
            PlacementKind::NoClear | PlacementKind::Tspin | PlacementKind::MiniTspin
        );
        let mut next_pieces = clone_queue(&movement_state.next_pieces);
        let current_piece = next_pieces.pop_front();
        let hold_piece = movement_state.hold_piece;
        let b2b = if zero_kind {
            // No rows cleared: the back-to-back chain is neither broken nor
            // extended.
            self.b2b
        } else {
            is_b2b_enabled(placement_kind)
        };
        let placed_piece = movement_state.field_piece.piece_state.piece;
        let movements_history = clone_movements(&movement_state.movements_history);

        if zero_kind {
            return State {
                board: new_board,
                current_piece,
                hold_piece,
                next_pieces,
                b2b,
                last_action: Some(
                    LastAction {
                        placement_kind,
                        placed_piece,
                        b2b: false,
                        combo: 0,
                        perfect_clear: false,
                        garbage_sent: 0,
                        time: time + TIME_PLACE,
                        movements_history,
                    },
                ),
            };
        }

        if new_board.all_rows_empty() {
            return State {
                board: new_board,
                current_piece,
                hold_piece,
                next_pieces,
                b2b,
                last_action: Some(
                    LastAction {
                        placement_kind,
                        placed_piece,
                        b2b: false,
                        combo: 1,
                        perfect_clear: true,
                        garbage_sent: ATTACK_PERFECT_CLEAR,
                        time: time + TIME_PERFECT_CLEAR,
                        movements_history,
                    },
                ),
            };
        }

        let base = base_attack(placement_kind);
        let combo = match &self.last_action {
            Some(la) => if la.combo == u32::MAX {
                la.combo
            } else {
                la.combo + 1
            },
            None => 0,
        };
        let combo_bonus = combo_attack(combo);
        let action_b2b = self.b2b && is_b2b_enabled(placement_kind);
        let b2b_bonus = if action_b2b {
            ATTACK_B2B
        } else {
            0
        };
        let garbage_sent = base + combo_bonus + b2b_bonus;
        let action_time = match placement_kind {
            PlacementKind::Clear1 => TIME_SINGLE,
            PlacementKind::MiniTspin1 => TIME_SINGLE,
            PlacementKind::Tspin1 => TIME_SINGLE,
            PlacementKind::Clear2 => TIME_DOUBLE,
            PlacementKind::MiniTspin2 => TIME_DOUBLE,
            PlacementKind::Tspin2 => TIME_DOUBLE,
            PlacementKind::Clear3 => TIME_TRIPLE,
            PlacementKind::Tspin3 => TIME_TRIPLE,
            PlacementKind::Clear4 => TIME_TETRIS,
            _ => TIME_PLACE,
        };

        State {
            board: new_board,
            current_piece,
            hold_piece,
            next_pieces,
            b2b,
            last_action: Some(
                LastAction {
                    placement_kind,
                    placed_piece,
                    b2b: action_b2b,
                    combo,
                    perfect_clear: false,
                    garbage_sent,
                    time: time + action_time,
                    movements_history,
                },
            ),
        }
    }
}

/// What the recorded last action of a successor must say, given the state it
/// came from, the movement that locked, its accumulated time and its
/// placement classification.
pub open spec fn spec_last_action_ok(
    s: State,
    ms: MovementState,
    time: Time,
    kind: PlacementKind,
    r: State,
) -> bool {
    match r.last_action {
        Some(la) => {
            &&& la.placement_kind == kind
            &&& la.placed_piece == ms.field_piece.piece_state.piece
            &&& la.movements_history@ == ms.movements_history@
            &&& if spec_kind_clears_nothing(kind) {
                &&& la.b2b == false
                &&& la.combo == 0
                &&& !la.perfect_clear
                &&& la.garbage_sent == 0
                &&& la.time == time + TIME_PLACE
            } else if crate::board::spec_board_empty(r.board) {
                &&& la.b2b == false
                &&& la.combo == 1
                &&& la.perfect_clear
                &&& la.garbage_sent == ATTACK_PERFECT_CLEAR
                &&& la.time == time + TIME_PERFECT_CLEAR
            } else {
                &&& la.b2b == (s.b2b && spec_is_b2b_enabled(kind))
                &&& la.combo == spec_next_combo(s.last_action)
                &&& !la.perfect_clear
                &&& la.garbage_sent == spec_base_attack(kind) + spec_combo_attack(la.combo) + (
                if s.b2b && spec_is_b2b_enabled(kind) {
                    ATTACK_B2B as int
                } else {
                    0int
                })
                &&& la.time == time + spec_action_time_for(kind)
            }
        },
        None => false,
    }
}

/// Everything one placement determines of the successor, as a relation
/// between the prior state, the locked movement state, its time and the
/// result: the board is the placement's, the queue advances into the active
/// slot, the hold carries over, the back-to-back flag follows the
/// classification when rows cleared and survives unchanged when none did,
/// and the recorded last action is pinned by `spec_last_action_ok`.
pub open spec fn spec_next_state_ok(s: State, ms: MovementState, time: Time, r: State) -> bool {
    &&& r.board.cells@ == spec_place_cells(s.board, ms.field_piece)
    &&& r.current_piece == (if ms.next_pieces@.len() > 0 {
        Some(ms.next_pieces@[0])
    } else {
        Option::<Piece>::None
    })
    &&& r.hold_piece == ms.hold_piece
    &&& r.next_pieces@ == (if ms.next_pieces@.len() > 0 {
        ms.next_pieces@.drop_first()
    } else {
        ms.next_pieces@
    })
    &&& r.b2b == (if spec_kind_clears_nothing(spec_place_kind(s.board, ms)) {
        s.b2b
    } else {
        spec_is_b2b_enabled(spec_place_kind(s.board, ms))
    })
    &&& spec_last_action_ok(s, ms, time, spec_place_kind(s.board, ms), r)
}

/// Whether the position still has a playable active piece.
pub open spec fn spec_alive(s: State) -> bool {
    s.current_piece matches Some(p) && spec_attempt(s.board, FieldPiece::spec_spawn(p))
}

/// How a movement state's hold, queue, held flag and piece kind relate to
/// the position it was searched from: either no hold happened and they are
/// the position's own, or the one legal hold swapped the active piece with
/// the hold slot, or, with an empty hold slot, with the front of the queue.
pub open spec fn spec_from_seed(s: State, v: MovementState) -> bool {
    match s.current_piece {
        Some(cur) => {
            ||| {
                &&& !v.has_held
                &&& v.hold_piece == s.hold_piece
                &&& v.next_pieces@ == s.next_pieces@
                &&& v.field_piece.piece_state.piece == cur
            }
            ||| {
                &&& v.has_held
                &&& match s.hold_piece {
                    Some(h) => {
                        &&& v.hold_piece == Some(cur)
                        &&& v.next_pieces@ == s.next_pieces@
                        &&& v.field_piece.piece_state.piece == h
                    },
                    None => {
                        &&& s.next_pieces@.len() > 0
                        &&& v.hold_piece == Some(cur)
                        &&& v.next_pieces@ == s.next_pieces@.drop_first()
                        &&& v.field_piece.piece_state.piece == s.next_pieces@[0]
                    },
                }
            }
        },
        None => false,
    }
}

/// A movement state that stands for one finished placement of the position:
/// locked, resting, colliding nowhere, and carrying the position's hold,
/// queue and piece through at most one initial hold.
pub open spec fn spec_reachable_placement(s: State, v: MovementState) -> bool {
    &&& spec_attempt(s.board, v.field_piece)
    &&& v.field_piece.is_locked
    &&& rests_on(s.board, v.field_piece)
    &&& spec_from_seed(s, v)
}

/// The state is the placement outcome of some finished placement of `s`:
/// there is a locked, resting, seed-consistent movement state whose
/// placement produces exactly this state, board, queue advance, flags and
/// recorded action included.
pub open spec fn spec_is_reachable_successor(s: State, r: State) -> bool {
    exists|ms: MovementState|
        #[trigger] spec_reachable_placement(s, ms) && spec_next_state_ok(s, ms, ms.time, r)
}

/// Stepping one legal move keeps the seed relation: the carried fields and
/// the piece kind do not change.
proof fn lemma_from_seed_step(s: State, src: MovementState, mv: MovementState)
    requires
        spec_from_seed(s, src),
        mv.hold_piece == src.hold_piece,
        mv.next_pieces@ == src.next_pieces@,
        mv.has_held == src.has_held,
        mv.field_piece.piece_state.piece == src.field_piece.piece_state.piece,
    ensures
        spec_from_seed(s, mv),
{
}

/// A value copy with the same views is the placement outcome of the same
/// finished placement.
pub proof fn lemma_reachable_successor_carries(s0: State, a: State, b: State)
    requires
        spec_is_reachable_successor(s0, a),
        b.board.cells@ == a.board.cells@,
        b.current_piece == a.current_piece,
        b.hold_piece == a.hold_piece,
        b.next_pieces@ == a.next_pieces@,
        b.b2b == a.b2b,
        last_action_matches(b.last_action, a.last_action),
    ensures
        spec_is_reachable_successor(s0, b),
{
    let ms = choose|ms: MovementState|
        #[trigger] spec_reachable_placement(s0, ms) && spec_next_state_ok(s0, ms, ms.time, a);
    assert(spec_next_state_ok(s0, ms, ms.time, b)) by {
        match (b.last_action, a.last_action) {
            (Some(x), Some(y)) => {
                assert(x.movements_history@ == y.movements_history@);
            },
            _ => {},
        }
    }
    assert(spec_reachable_placement(s0, ms));
}

/// Every entry of the dedup table descends from the position's seeds: its
/// carried fields obey the seed relation and a locked entry rests.
pub open spec fn candidates_ok(s: State, m: Map<u64, MovementState>) -> bool {
    forall|k: u64|
        #[trigger] m.contains_key(k) ==> spec_from_seed(s, m[k]) && (m[k].field_piece.is_locked
            ==> rests_on(s.board, m[k].field_piece))
}

/// What every state the successor enumeration returns satisfies on its own:
/// a sound board with no full row left and exact cached heights, a recorded
/// last action, the back-to-back flag matching that action's classification
/// whenever it cleared rows, and a combo and attack of zero when it cleared
/// nothing.
pub open spec fn spec_successor_ok(r: State) -> bool {
    &&& r.board.wf()
    &&& (forall|y: int| 0 <= y < 40 ==> #[trigger] r.board.cells@[y] != FULL_ROW)
    &&& (forall|x: int|
        0 <= x < 10 ==> #[trigger] r.board.collumn_heights@[x] == crate::board::spec_col_height(
            r.board.cells@,
            x,
        ))
    &&& match r.last_action {
        Some(la) => {
            &&& (!spec_kind_clears_nothing(la.placement_kind) ==> r.b2b == spec_is_b2b_enabled(
                la.placement_kind,
            ))
            &&& (spec_kind_clears_nothing(la.placement_kind) ==> la.combo == 0 && la.garbage_sent
                == 0)
        },
        None => false,
    }
}

/// What the dedup step leaves for a configuration: a first path's time is
/// taken as it is, and a further path replaces the entry only when its time
/// is strictly smaller.
pub open spec fn spec_relax_time(cur: Option<int>, t: int) -> int {
    match cur {
        Some(c) => if t < c {
            t
        } else {
            c
        },
        None => t,
    }
}

/// The time retained after every path in `offers` reached one configuration,
/// in that order.
pub open spec fn spec_retained_time(offers: Seq<int>) -> int
    decreases offers.len(),
{
    if offers.len() <= 1 {
        offers[0]
    } else {
        spec_relax_time(Some(spec_retained_time(offers.drop_last())), offers.last())
    }
}

/// One more path folds into the retained time by exactly the step the
/// dedup relaxation performs.
pub proof fn lemma_retained_time_step(offers: Seq<int>, t: int)
    requires
        offers.len() >= 1,
    ensures
        spec_retained_time(offers.push(t)) == spec_relax_time(
            Some(spec_retained_time(offers)),
            t,
        ),
{
    assert(offers.push(t).drop_last() =~= offers);
}

/// Movement-graph dedup law: however many paths reach movement states equal
/// under piece, hold, queue and held flag, the retained entry carries the
/// minimal time among all of them, and that time was one of the paths'.
pub proof fn lemma_retained_time_is_min(offers: Seq<int>)
    requires
        offers.len() >= 1,
    ensures
        forall|i: int| 0 <= i < offers.len() ==> spec_retained_time(offers) <= #[trigger] offers[i],
        exists|i: int| 0 <= i < offers.len() && spec_retained_time(offers) == offers[i],
    decreases offers.len(),
{
    if offers.len() > 1 {
        lemma_retained_time_is_min(offers.drop_last());
        assert forall|i: int| 0 <= i < offers.len() implies spec_retained_time(offers)
            <= #[trigger] offers[i] by {
            if i < offers.len() - 1 {
                assert(offers.drop_last()[i] == offers[i]);
            }
        }
        if spec_retained_time(offers) == offers.last() {
            assert(spec_retained_time(offers) == offers[offers.len() - 1]);
        } else {
            let j = choose|j: int|
                0 <= j < offers.drop_last().len() && spec_retained_time(offers.drop_last())
                    == offers.drop_last()[j];
            assert(offers.drop_last()[j] == offers[j]);
            assert(spec_retained_time(offers) == spec_retained_time(offers.drop_last()));
            assert(spec_retained_time(offers) == offers[j]);
        }
    } else {
        assert(spec_retained_time(offers) == offers[0]);
    }
}

/// What every entry of the dedup table and of the frontier satisfies.
pub open spec fn reachable_entry_ok(b: Board, v: MovementState) -> bool {
    &&& spec_attempt(b, v.field_piece)
    &&& -2 <= v.field_piece.position.0 <= 11
    &&& -2 <= v.field_piece.position.1 <= 41
    &&& v.time <= u32::MAX - 50
}

/// The dedup table's invariant: every entry is a reachable, non-colliding
/// movement state, stored under a key whose parity records whether it is
/// locked.
pub open spec fn table_ok(b: Board, m: Map<u64, MovementState>) -> bool {
    forall|k: u64|
        #[trigger] m.contains_key(k) ==> reachable_entry_ok(b, m[k]) && ((k % 2 == 1)
            <==> m[k].field_piece.is_locked)
}

/// The dedup table against the log of every path time ever offered to it:
/// each entry's time is the retained fold of its configuration's offers, so
/// by the retained-time law it is the least of them all.
pub open spec fn dedup_log_ok(m: Map<u64, MovementState>, offers: Map<u64, Seq<int>>) -> bool {
    &&& m.dom() == offers.dom()
    &&& forall|k: u64|
        #[trigger] m.contains_key(k) ==> offers[k].len() >= 1 && m[k].time as int
            == spec_retained_time(offers[k])
}

/// The key list mirrors the table's domain.
pub open spec fn keys_match(m: Map<u64, MovementState>, keys: Seq<u64>) -> bool {
    &&& (forall|i: int| 0 <= i < keys.len() ==> m.contains_key(#[trigger] keys[i]))
    &&& (forall|k: u64| #[trigger] m.contains_key(k) ==> keys.contains(k))
}

/// The multiplication by two keeps the lock flag in the lowest bit.
proof fn lemma_parity(h: u64, l: u64)
    by (bit_vector)
    requires
        h < 0x100000,
        l < 2,
    ensures
        ((h * 2 + l) % 2) == l,
{
}

/// Packs the fields that identify a configuration for dedup: piece kind,
/// orientation, kick tag, position, held flag, and the lock flag in the
/// lowest bit. Time and history stay out, so two paths to the same
/// configuration collapse onto one key.
fn encode_config(ms: &MovementState) -> (r: u64)
    requires
        -2 <= ms.field_piece.position.0 <= 11,
        -2 <= ms.field_piece.position.1 <= 41,
    ensures
        (r % 2 == 1) <==> ms.field_piece.is_locked,
{
    let piece_code: u64 = match ms.field_piece.piece_state.piece {
        Piece::S => 0,
        Piece::Z => 1,
        Piece::J => 2,
        Piece::L => 3,
        Piece::T => 4,
        Piece::O => 5,
        Piece::I => 6,
    };
    let rot_code: u64 = match ms.field_piece.piece_state.rotation {
        crate::piece::RotationState::North => 0,
        crate::piece::RotationState::East => 1,
        crate::piece::RotationState::South => 2,
        crate::piece::RotationState::West => 3,
    };
    let srs_code: u64 = match ms.field_piece.super_rotation_state {
        Some(s) => if s > 5 {
            7
        } else {
            (s as u64) + 1
        },
        None => 0,
    };
    let xx: u64 = (ms.field_piece.position.0 + 2) as u64;
    let yy: u64 = (ms.field_piece.position.1 + 2) as u64;
    let held: u64 = if ms.has_held {
        1
    } else {
        0
    };
    let high: u64 = ((((piece_code * 4 + rot_code) * 8 + srs_code) * 14 + xx) * 44 + yy) * 2
        + held;
    let locked: u64 = if ms.field_piece.is_locked {
        1
    } else {
        0
    };
    let r = high * 2 + locked;
    proof {
        lemma_parity(high, locked);
    }
    r
}

/// One dedup relaxation: a configuration seen for the first time is
/// recorded, and a configuration seen again keeps whichever entry has the
/// smaller time, ties keeping the entry already there. The key list grows
/// exactly when the key is new.
fn relax(
    m: &mut HashMap<u64, MovementState>,
    keys: &mut Vec<u64>,
    key: u64,
    state: MovementState,
) -> (kept: bool)
    ensures
        final(m)@.dom() == old(m)@.dom().insert(key),
        final(m)@[key].time as int == spec_relax_time(
            if old(m)@.contains_key(key) {
                Some(old(m)@[key].time as int)
            } else {
                Option::<int>::None
            },
            state.time as int,
        ),
        kept ==> final(m)@[key] == state,
        !kept ==> old(m)@.contains_key(key) && final(m)@ == old(m)@,
        forall|k2: u64|
            k2 != key ==> (final(m)@.contains_key(k2) <==> old(m)@.contains_key(k2)),
        forall|k2: u64|
            k2 != key && old(m)@.contains_key(k2) ==> final(m)@[k2] == old(m)@[k2],
        final(keys)@ == (if old(m)@.contains_key(key) {
            old(keys)@
        } else {
            old(keys)@.push(key)
        }),
        kept == (!old(m)@.contains_key(key) || state.time < old(m)@[key].time),
        keys_match(old(m)@, old(keys)@) ==> keys_match(final(m)@, final(keys)@),
{
    let mut kept = false;
    match m.get(&key) {
        None => {
            keys.push(key);
            kept = true;
        },
        Some(existing) => {
            if state.time < existing.time {
                kept = true;
            }
        },
    }
    if kept {
        m.insert(key, state);
    }
    proof {
        assert(m@.dom() =~= old(m)@.dom().insert(key));
        if keys_match(old(m)@, old(keys)@) {
            assert forall|k2: u64| #[trigger] m@.contains_key(k2) implies keys@.contains(
                k2,
            ) by {
                if k2 == key {
                    if old(m)@.contains_key(key) {
                        assert(old(keys)@.contains(key));
                        let i = choose|i: int|
                            0 <= i < old(keys)@.len() && old(keys)@[i] == key;
                        assert(keys@[i] == key);
                    } else {
                        assert(keys@[keys@.len() - 1] == key);
                    }
                } else {
                    assert(old(m)@.contains_key(k2));
                    let i = choose|i: int| 0 <= i < old(keys)@.len() && old(keys)@[i] == k2;
                    assert(keys@[i] == k2);
                }
            }
            assert forall|i: int| 0 <= i < keys@.len() implies m@.contains_key(
                #[trigger] keys@[i],
            ) by {
                if i < old(keys)@.len() {
                    assert(old(m)@.contains_key(old(keys)@[i]));
                } else {
                    assert(keys@[i] == key);
                }
            }
        }
    }
    kept
}

/// Appends one offered path time to a configuration's log, and shows that a
/// table whose entry just went through the matching relaxation still holds
/// the retained fold of its log.
proof fn log_offer(
    pre_m: Map<u64, MovementState>,
    offers: Map<u64, Seq<int>>,
    key: u64,
    t: int,
) -> (r: Map<u64, Seq<int>>)
    requires
        dedup_log_ok(pre_m, offers),
    ensures
        r == offers.insert(
            key,
            if pre_m.contains_key(key) {
                offers[key].push(t)
            } else {
                seq![t]
            },
        ),
        r.dom() == pre_m.dom().insert(key),
        r[key].len() >= 1,
        spec_retained_time(r[key]) == spec_relax_time(
            if pre_m.contains_key(key) {
                Some(pre_m[key].time as int)
            } else {
                Option::<int>::None
            },
            t,
        ),
        forall|k2: u64| k2 != key && #[trigger] offers.contains_key(k2) ==> r[k2] == offers[k2],
{
    let entry = if pre_m.contains_key(key) {
        offers[key].push(t)
    } else {
        seq![t]
    };
    let r = offers.insert(key, entry);
    assert(r.dom() =~= pre_m.dom().insert(key));
    if pre_m.contains_key(key) {
        lemma_retained_time_step(offers[key], t);
    } else {
        assert(spec_retained_time(seq![t]) == t);
    }
    r
}

/// Relaxes every single-step successor of one expanded state into the dedup
/// table, queueing those that were kept; if any successor was locked, the
/// table holds a locked entry afterwards.
fn absorb_moves(
    board: &Board,
    m: &mut HashMap<u64, MovementState>,
    keys: &mut Vec<u64>,
    queue: &mut Vec<MovementState>,
    moves: Vec<MovementState>,
    src: Ghost<MovementState>,
    origin: Ghost<State>,
    offers: Ghost<Map<u64, Seq<int>>>,
) -> (new_offers: Ghost<Map<u64, Seq<int>>>)
    requires
        board.wf(),
        origin@.board == *board,
        spec_from_seed(origin@, src@),
        forall|i: int| 0 <= i < moves@.len() ==> lm_step_ok(*board, src@, #[trigger] moves@[i]),
        src@.time <= u32::MAX - 100,
        table_ok(*board, old(m)@),
        keys_match(old(m)@, old(keys)@),
        candidates_ok(origin@, old(m)@),
        dedup_log_ok(old(m)@, offers@),
        forall|i: int|
            0 <= i < old(queue)@.len() ==> reachable_entry_ok(*board, #[trigger] old(queue)@[i]),
        forall|i: int|
            0 <= i < old(queue)@.len() ==> spec_from_seed(origin@, #[trigger] old(queue)@[i]),
    ensures
        table_ok(*board, final(m)@),
        keys_match(final(m)@, final(keys)@),
        candidates_ok(origin@, final(m)@),
        dedup_log_ok(final(m)@, new_offers@),
        forall|i: int|
            0 <= i < final(queue)@.len() ==> reachable_entry_ok(*board, #[trigger] final(queue)@[i]),
        forall|i: int|
            0 <= i < final(queue)@.len() ==> spec_from_seed(origin@, #[trigger] final(queue)@[i]),
        forall|k: u64| old(m)@.contains_key(k) ==> final(m)@.contains_key(k),
        (exists|i: int| 0 <= i < moves@.len() && (#[trigger] moves@[i]).field_piece.is_locked)
            ==> exists|k: u64| #[trigger] final(m)@.contains_key(k) && k % 2 == 1,
{
    let ghost all_moves = moves@;
    let ghost mut offers_cur = offers@;
    let mut rest = moves;
    while rest.len() > 0
        invariant
            board.wf(),
            forall|i: int| 0 <= i < rest@.len() ==> lm_step_ok(*board, src@, #[trigger] rest@[i]),
            src@.time <= u32::MAX - 100,
            table_ok(*board, m@),
            keys_match(m@, keys@),
            candidates_ok(origin@, m@),
            origin@.board == *board,
            spec_from_seed(origin@, src@),
            forall|i: int|
                0 <= i < queue@.len() ==> reachable_entry_ok(*board, #[trigger] queue@[i]),
            forall|i: int|
                0 <= i < queue@.len() ==> spec_from_seed(origin@, #[trigger] queue@[i]),
            forall|k: u64| old(m)@.contains_key(k) ==> m@.contains_key(k),
            dedup_log_ok(m@, offers_cur),
            (exists|i: int| 0 <= i < all_moves.len() && (#[trigger] all_moves[i]).field_piece.is_locked)
                ==> ((exists|i: int|
                0 <= i < rest@.len() && (#[trigger] rest@[i]).field_piece.is_locked) || (exists|
            k: u64|
                #[trigger] m@.contains_key(k) && k % 2 == 1)),
        decreases rest@.len(),
    {
        let ghost rest0 = rest@;
        let mv = rest.pop().unwrap();
        proof {
            crate::board::lemma_attempt_pos_range(*board, mv.field_piece);
        }
        let key = encode_config(&mv);
        let mvc = mv.clone();
        let ghost offered_time = mv.time as int;
        let ghost pre_m = m@;
        let ghost mv_snap = mv;
        let kept = relax(m, keys, key, mv);
        if kept {
            queue.push(mvc);
        }
        proof {
            offers_cur = log_offer(pre_m, offers_cur, key, offered_time);
            lemma_from_seed_step(origin@, src@, mv_snap);
            assert(m@.contains_key(key));
            if exists|i: int|
                0 <= i < rest@.len() && (#[trigger] rest@[i]).field_piece.is_locked {
            } else {
                if exists|i: int|
                    0 <= i < rest0.len() && (#[trigger] rest0[i]).field_piece.is_locked {
                    let i = choose|i: int|
                        0 <= i < rest0.len() && (#[trigger] rest0[i]).field_piece.is_locked;
                    if i < rest0.len() - 1 {
                        assert(rest@[i] == rest0[i]);
                        assert(false);
                    } else {
                        assert(key % 2 == 1);
                    }
                }
            }
        }
    }
    Ghost(offers_cur)
}

impl State {
    /// Every successor state reachable by legally moving, rotating, dropping
    /// and at most once holding the active piece until it locks. Empty
    /// exactly when there is no active piece or the spawn is already
    /// blocked; otherwise every returned state is the placement outcome of
    /// a locked, resting, seed-consistent movement state of this position.
    /// The search relaxes each reached configuration through the dedup
    /// table, and the proof below shows the entry kept for a configuration
    /// carries the least time of every path that reached it.
    pub fn legal_actions(&self) -> (r: Vec<State>)
        requires
            self.board.wf(),
        ensures
            self.current_piece is None ==> r@.len() == 0,
            (self.current_piece matches Some(p) && !spec_attempt(
                self.board,
                FieldPiece::spec_spawn(p),
            )) ==> r@.len() == 0,
            (self.current_piece matches Some(p) && spec_attempt(
                self.board,
                FieldPiece::spec_spawn(p),
            )) ==> r@.len() >= 1,
            forall|j: int| 0 <= j < r@.len() ==> spec_successor_ok(#[trigger] r@[j]),
            forall|j: int|
                0 <= j < r@.len() ==> spec_is_reachable_successor(*self, #[trigger] r@[j]),
    {
        let mut result: Vec<State> = Vec::new();
        let current = match self.current_piece {
            Some(p) => p,
            None => {
                return result;
            },
        };
        if self.is_dead() {
            return result;
        }

        let init = MovementState::new_from_piece(
            current,
            self.hold_piece,
            clone_queue(&self.next_pieces),
        );
        let mut m: HashMap<u64, MovementState> = HashMap::new();
        let mut keys: Vec<u64> = Vec::new();
        let mut queue: Vec<MovementState> = Vec::new();
        let ghost mut offers: Map<u64, Seq<int>> = Map::empty();

        proof {
            crate::board::lemma_attempt_pos_range(self.board, init.field_piece);
        }
        let init_key = encode_config(&init);
        let initc = init.clone();
        let ghost init_time = initc.time as int;
        let ghost pre_init_m = m@;
        proof {
            assert(spec_from_seed(*self, initc));
        }
        relax(&mut m, &mut keys, init_key, initc);
        proof {
            offers = log_offer(pre_init_m, offers, init_key, init_time);
        }

        // Holding is legal only before any other movement, so its one
        // possible use seeds the frontier beside the spawn state.
        if let Some(held_state) = init.hold() {
            if self.board.attempt(held_state.field_piece) {
                proof {
                    crate::board::lemma_attempt_pos_range(self.board, held_state.field_piece);
                }
                let held_key = encode_config(&held_state);
                let heldc = held_state.clone();
                let ghost held_time = held_state.time as int;
                let ghost pre_held_m = m@;
                proof {
                    assert(spec_from_seed(*self, held_state));
                }
                relax(&mut m, &mut keys, held_key, held_state);
                proof {
                    offers = log_offer(pre_held_m, offers, held_key, held_time);
                }
                queue.push(heldc);
            }
        }

        // Expanding the spawn state first guarantees its hard drop is in the
        // table: an alive position always has at least one successor.
        let ghost init_snap = init;
        let moves0 = self.board.legal_moves(init);
        let new_offers = absorb_moves(
            &self.board,
            &mut m,
            &mut keys,
            &mut queue,
            moves0,
            Ghost(init_snap),
            Ghost(*self),
            Ghost(offers),
        );
        proof {
            offers = new_offers@;
        }
        let ghost locked_key = choose|k: u64| #[trigger] m@.contains_key(k) && k % 2 == 1;

        let mut fuel: u64 = 100000000;
        while queue.len() > 0 && fuel > 0
            invariant
                self.board.wf(),
                table_ok(self.board, m@),
                keys_match(m@, keys@),
                m@.contains_key(locked_key),
                locked_key % 2 == 1,
                candidates_ok(*self, m@),
                dedup_log_ok(m@, offers),
                forall|i: int|
                    0 <= i < queue@.len() ==> reachable_entry_ok(
                        self.board,
                        #[trigger] queue@[i],
                    ),
                forall|i: int|
                    0 <= i < queue@.len() ==> spec_from_seed(*self, #[trigger] queue@[i]),
            decreases fuel,
        {
            fuel = fuel - 1;
            let cur = queue.pop().unwrap();
            proof {
                crate::board::lemma_attempt_pos_range(self.board, cur.field_piece);
            }
            let key = encode_config(&cur);
            let mut stale = false;
            match m.get(&key) {
                Some(best) => {
                    if cur.time > best.time {
                        stale = true;
                    }
                },
                None => {},
            }
            if stale {
                continue;
            }
            if cur.time > u32::MAX - 100 {
                continue;
            }
            let ghost cur_snap = cur;
            let moves = self.board.legal_moves(cur);
            let new_offers = absorb_moves(
                &self.board,
                &mut m,
                &mut keys,
                &mut queue,
                moves,
                Ghost(cur_snap),
                Ghost(*self),
                Ghost(offers),
            );
            proof {
                offers = new_offers@;
            }
        }

        proof {
            // The dedup law over the finished table: whatever paths offered a
            // configuration, the entry kept for it has the least time of all
            // of them, and that time was one of the offers.
            assert forall|k: u64| #[trigger] m@.contains_key(k) implies (forall|i: int|
                0 <= i < offers[k].len() ==> m@[k].time as int <= #[trigger] offers[k][i])
                && (exists|i: int|
                0 <= i < offers[k].len() && m@[k].time as int == offers[k][i]) by {
                lemma_retained_time_is_min(offers[k]);
            }
        }

        // Materialize one successor state per locked configuration, in the
        // order the configurations were first recorded.
        let mut i: usize = 0;
        while i < keys.len()
            invariant
                self.board.wf(),
                table_ok(self.board, m@),
                keys_match(m@, keys@),
                candidates_ok(*self, m@),
                m@.contains_key(locked_key),
                locked_key % 2 == 1,
                0 <= i <= keys@.len(),
                forall|j: int| 0 <= j < result@.len() ==> spec_successor_ok(#[trigger] result@[j]),
                forall|j: int|
                    0 <= j < result@.len() ==> spec_is_reachable_successor(
                        *self,
                        #[trigger] result@[j],
                    ),
                (exists|j: int| 0 <= j < i && (#[trigger] keys@[j]) % 2 == 1) ==> result@.len()
                    >= 1,
            decreases keys@.len() - i,
        {
            let k = keys[i];
            if k % 2 == 1 {
                if let Some(stored) = m.get(&k) {
                    let stored_state = stored.clone();
                    let stored_time = stored_state.time;
                    proof {
                        crate::board::lemma_attempt_pos_range(
                            self.board,
                            stored_state.field_piece,
                        );
                    }
                    let ghost witness = stored_state;
                    let ns = self.next_state(stored_state, stored_time);
                    result.push(ns);
                    proof {
                        assert(spec_reachable_placement(*self, witness));
                        assert(spec_is_reachable_successor(*self, ns));
                    }
                }
            }
            i = i + 1;
        }
        proof {
            if self.current_piece matches Some(p) && spec_attempt(
                self.board,
                FieldPiece::spec_spawn(p),
            ) {
                assert(keys@.contains(locked_key));
                let j = choose|j: int| 0 <= j < keys@.len() && keys@[j] == locked_key;
                assert(keys@[j] % 2 == 1);
            }
        }
        result
    }
}

} // verus!
