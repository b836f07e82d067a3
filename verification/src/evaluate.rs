//! The injectable heuristic: maps a game state to a reward for its last
//! action and a value for the shape of its board, as a weighted sum of
//! board features.

use vstd::prelude::*;
use crate::board::{Board, spec_occupied};
use crate::piece::Piece;
use crate::state::{PlacementKind, State};

verus! {

/// Every reward and value the evaluator returns stays within this bound, so
/// the search can mix scores without overflow.
pub const EVAL_BOUND: i64 = 0x40_0000_0000_0000;

/// A feature handed to `term` never exceeds this.
pub const FEATURE_CAP: i64 = 200000;

/// The weight vector of the heuristic. The first group scores the board
/// shape; the second scores the last action.
#[derive(Clone, Copy, Debug, PartialEq, Eq, Hash)]
pub struct Evaluator {
    pub bumpiness: i32,
    pub bumpiness_sq: i32,
    pub cavities: i32,
    pub cavities_sq: i32,
    pub overhangs: i32,
    pub overhangs_sq: i32,
    pub covers: i32,
    pub covers_sq: i32,
    pub well_depth_1: i32,
    pub well_depth_1_sq: i32,
    pub well_depth_2: i32,
    pub well_depth_2_sq: i32,
    pub hight: i32,
    pub hight_sq: i32,
    pub b2b: i32,
    pub holding: [i32; 5],

    pub move_time: i32,
    pub wasted_i: i32,
    pub b2b_clear: i32,
    pub combo_garbage: i32,
    pub clear1: i32,
    pub clear2: i32,
    pub clear3: i32,
    pub clear4: i32,
}

pub open spec fn spec_zero_evaluator() -> Evaluator {
    Evaluator {
        bumpiness: 0,
        bumpiness_sq: 0,
        cavities: 0,
        cavities_sq: 0,
        overhangs: 0,
        overhangs_sq: 0,
        covers: 0,
        covers_sq: 0,
        well_depth_1: 0,
        well_depth_1_sq: 0,
        well_depth_2: 0,
        well_depth_2_sq: 0,
        hight: 0,
        hight_sq: 0,
        b2b: 0,
        holding: [0, 0, 0, 0, 0],
        move_time: 0,
        wasted_i: 0,
        b2b_clear: 0,
        combo_garbage: 0,
        clear1: 0,
        clear2: 0,
        clear3: 0,
        clear4: 0,
    }
}

impl Default for Evaluator {
    fn default() -> (r: Self)
        ensures
            r == spec_zero_evaluator(),
    {
        Evaluator {
            bumpiness: 0,
            bumpiness_sq: 0,
            cavities: 0,
            cavities_sq: 0,
            overhangs: 0,
            overhangs_sq: 0,
            covers: 0,
            covers_sq: 0,
            well_depth_1: 0,
            well_depth_1_sq: 0,
            well_depth_2: 0,
            well_depth_2_sq: 0,
            hight: 0,
            hight_sq: 0,
            b2b: 0,
            holding: [0, 0, 0, 0, 0],
            move_time: 0,
            wasted_i: 0,
            b2b_clear: 0,
            combo_garbage: 0,
            clear1: 0,
            clear2: 0,
            clear3: 0,
            clear4: 0,
        }
    }
}

fn square(feature: i64) -> (r: i64)
    requires
        0 <= feature <= 400,
    ensures
        r == feature * feature,
        0 <= r <= 160000,
{
    proof {
        assert(0 <= feature * feature <= 160000) by (nonlinear_arith)
            requires
                0 <= feature <= 400,
        ;
    }
    feature * feature
}

/// One weighted feature; the feature is small, so the product fits easily.
pub open spec fn spec_term(feature: int, weight: i32) -> int {
    feature * weight
}

fn term(feature: i64, weight: i32) -> (r: i64)
    requires
        0 <= feature <= FEATURE_CAP,
    ensures
        r == spec_term(feature as int, weight),
        -(FEATURE_CAP as int) * 0x8000_0000 <= r <= (FEATURE_CAP as int) * 0x8000_0000,
{
    proof {
        assert(-(FEATURE_CAP as int) * 0x8000_0000 <= feature * (weight as int) <= (
        FEATURE_CAP as int) * 0x8000_0000) by (nonlinear_arith)
            requires
                0 <= feature <= FEATURE_CAP,
                -0x8000_0000 <= weight <= 0x7fff_ffff,
        ;
    }
    feature * (weight as i64)
}

/// A u32 quantity clamped to the feature cap before weighting.
pub open spec fn spec_clamped(v: u32) -> int {
    if v > FEATURE_CAP as u32 {
        FEATURE_CAP as int
    } else {
        v as int
    }
}

fn clamped(v: u32) -> (r: i64)
    ensures
        r == spec_clamped(v),
        0 <= r <= FEATURE_CAP,
{
    if v > FEATURE_CAP as u32 {
        FEATURE_CAP
    } else {
        v as i64
    }
}

pub open spec fn spec_abs_diff(a: int, b: int) -> int {
    if a >= b {
        a - b
    } else {
        b - a
    }
}

/// Sum of the height differences of the first `x` adjacent column pairs.
pub open spec fn spec_bumpiness_upto(h: Seq<u32>, x: int) -> int
    decreases x,
{
    if x <= 0 {
        0
    } else {
        spec_bumpiness_upto(h, x - 1) + spec_abs_diff(h[x - 1] as int, h[x] as int)
    }
}

/// Total height difference across the skyline.
pub open spec fn spec_bumpiness(b: Board) -> int {
    spec_bumpiness_upto(b.collumn_heights@, 9)
}

pub fn bumpiness(board: &Board) -> (r: i64)
    requires
        board.wf(),
    ensures
        r == spec_bumpiness(*board),
        0 <= r <= 360,
{
    let mut r: i64 = 0;
    let mut x: usize = 1;
    while x < 10
        invariant
            board.wf(),
            1 <= x <= 10,
            r == spec_bumpiness_upto(board.collumn_heights@, x - 1),
            0 <= r <= 40 * (x - 1),
        decreases 10 - x,
    {
        let a = board.collumn_heights[x - 1];
        let b = board.collumn_heights[x];
        let d: i64 = if a >= b {
            (a - b) as i64
        } else {
            (b - a) as i64
        };
        r = r + d;
        x = x + 1;
    }
    r
}

/// The left-overhang test the cell classification uses: an empty cell with
/// the two columns to its left already below it.
pub open spec fn spec_over_left(b: Board, x: int, y: int) -> bool {
    x > 1 && (b.collumn_heights@[x - 1] as int) < y && (b.collumn_heights@[x - 2] as int) < y + 1
}

pub open spec fn spec_over_right(b: Board, x: int, y: int) -> bool {
    x < 8 && (b.collumn_heights@[x + 1] as int) < y && (b.collumn_heights@[x + 2] as int) < y + 1
}

/// An empty cell under the column's top that a side overhang explains.
pub open spec fn spec_is_overhang_cell(b: Board, x: int, y: int) -> bool {
    !spec_occupied(b, x, y) && (spec_over_left(b, x, y) || spec_over_right(b, x, y))
}

/// An empty cell under the column's top with no such explanation.
pub open spec fn spec_is_cavity_cell(b: Board, x: int, y: int) -> bool {
    !spec_occupied(b, x, y) && !spec_over_left(b, x, y) && !spec_over_right(b, x, y)
}

pub open spec fn spec_cav_col(b: Board, x: int, y: int) -> int
    decreases y,
{
    if y <= 0 {
        0
    } else {
        spec_cav_col(b, x, y - 1) + if spec_is_cavity_cell(b, x, y - 1) {
            1int
        } else {
            0int
        }
    }
}

pub open spec fn spec_over_col(b: Board, x: int, y: int) -> int
    decreases y,
{
    if y <= 0 {
        0
    } else {
        spec_over_col(b, x, y - 1) + if spec_is_overhang_cell(b, x, y - 1) {
            1int
        } else {
            0int
        }
    }
}

pub open spec fn spec_cavities_upto(b: Board, x: int) -> int
    decreases x,
{
    if x <= 0 {
        0
    } else {
        spec_cavities_upto(b, x - 1) + spec_cav_col(b, x - 1, b.collumn_heights@[x - 1] as int)
    }
}

pub open spec fn spec_overhangs_upto(b: Board, x: int) -> int
    decreases x,
{
    if x <= 0 {
        0
    } else {
        spec_overhangs_upto(b, x - 1) + spec_over_col(b, x - 1, b.collumn_heights@[x - 1] as int)
    }
}

proof fn lemma_col_count_bounds(b: Board, x: int, y: int)
    requires
        y >= 0,
    ensures
        0 <= spec_cav_col(b, x, y) <= y,
        0 <= spec_over_col(b, x, y) <= y,
    decreases y,
{
    if y > 0 {
        lemma_col_count_bounds(b, x, y - 1);
    }
}

/// Counts the empty cells buried below each column's top, split into
/// cavities (nothing explains them) and overhangs (a neighbouring pair of
/// lower columns does).
pub fn cavities_and_overhangs(board: &Board) -> (r: (i64, i64))
    requires
        board.wf(),
    ensures
        r.0 == spec_cavities_upto(*board, 10),
        r.1 == spec_overhangs_upto(*board, 10),
        0 <= r.0 <= 400,
        0 <= r.1 <= 400,
{
    let mut cavities: i64 = 0;
    let mut overhangs: i64 = 0;
    let mut x: usize = 0;
    while x < 10
        invariant
            board.wf(),
            0 <= x <= 10,
            cavities == spec_cavities_upto(*board, x as int),
            overhangs == spec_overhangs_upto(*board, x as int),
            0 <= cavities <= 40 * x,
            0 <= overhangs <= 40 * x,
        decreases 10 - x,
    {
        let h = board.collumn_heights[x];
        let mut y: u32 = 0;
        let mut cav: i64 = 0;
        let mut over: i64 = 0;
        while y < h
            invariant
                board.wf(),
                0 <= x < 10,
                h == board.collumn_heights@[x as int],
                h <= 40,
                0 <= y <= h,
                cav == spec_cav_col(*board, x as int, y as int),
                over == spec_over_col(*board, x as int, y as int),
                0 <= cav <= y,
                0 <= over <= y,
            decreases h - y,
        {
            if board.occupied(x as i32, y as i32) {
                y = y + 1;
                continue;
            }
            if x > 1 && board.collumn_heights[x - 1] < y && board.collumn_heights[x - 2] < y + 1 {
                over = over + 1;
                y = y + 1;
                continue;
            }
            if x < 8 && board.collumn_heights[x + 1] < y && board.collumn_heights[x + 2] < y + 1 {
                over = over + 1;
                y = y + 1;
                continue;
            }
            cav = cav + 1;
            y = y + 1;
        }
        proof {
            lemma_col_count_bounds(*board, x as int, h as int);
        }
        cavities = cavities + cav;
        overhangs = overhangs + over;
        x = x + 1;
    }
    (cavities, overhangs)
}

/// Whether some cell strictly below `y` in column `x` is empty.
pub open spec fn spec_has_empty_below(b: Board, x: int, y: int) -> bool {
    exists|y2: int| 0 <= y2 < y && !spec_occupied(b, x, #[trigger] (y2 + 0))
}

pub open spec fn spec_is_cover_cell(b: Board, x: int, y: int) -> bool {
    spec_occupied(b, x, y) && spec_has_empty_below(b, x, y)
}

pub open spec fn spec_cover_col(b: Board, x: int, y: int) -> int
    decreases y,
{
    if y <= 0 {
        0
    } else {
        spec_cover_col(b, x, y - 1) + if spec_is_cover_cell(b, x, y - 1) {
            1int
        } else {
            0int
        }
    }
}

pub open spec fn spec_covers_upto(b: Board, x: int) -> int
    decreases x,
{
    if x <= 0 {
        0
    } else {
        spec_covers_upto(b, x - 1) + spec_cover_col(b, x - 1, b.collumn_heights@[x - 1] as int)
    }
}

proof fn lemma_cover_col_bounds(b: Board, x: int, y: int)
    requires
        y >= 0,
    ensures
        0 <= spec_cover_col(b, x, y) <= y,
    decreases y,
{
    if y > 0 {
        lemma_cover_col_bounds(b, x, y - 1);
    }
}

/// Counts the occupied cells that sit above at least one empty cell of
/// their own column, below each column's top.
pub fn covers(board: &Board) -> (r: i64)
    requires
        board.wf(),
    ensures
        r == spec_covers_upto(*board, 10),
        0 <= r <= 400,
{
    let mut r: i64 = 0;
    let mut x: usize = 0;
    while x < 10
        invariant
            board.wf(),
            0 <= x <= 10,
            r == spec_covers_upto(*board, x as int),
            0 <= r <= 40 * x,
        decreases 10 - x,
    {
        let h = board.collumn_heights[x];
        let mut y: u32 = 0;
        let mut exist_empty = false;
        let mut c: i64 = 0;
        while y < h
            invariant
                board.wf(),
                0 <= x < 10,
                h == board.collumn_heights@[x as int],
                h <= 40,
                0 <= y <= h,
                exist_empty == spec_has_empty_below(*board, x as int, y as int),
                c == spec_cover_col(*board, x as int, y as int),
                0 <= c <= y,
            decreases h - y,
        {
            if !board.occupied(x as i32, y as i32) {
                exist_empty = true;
            } else if exist_empty {
                c = c + 1;
            }
            proof {
                if !spec_occupied(*board, x as int, y as int) {
                    assert(!spec_occupied(*board, x as int, (y as int) + 0));
                }
            }
            y = y + 1;
        }
        proof {
            lemma_cover_col_bounds(*board, x as int, h as int);
        }
        r = r + c;
        x = x + 1;
    }
    r
}

/// How far column `x` sits below the lower of its two neighbours; the walls
/// count as full-height neighbours.
pub open spec fn spec_well_depth(b: Board, x: int) -> int {
    let h = b.collumn_heights@;
    let left: int = if x == 0 {
        40
    } else {
        h[x - 1] as int
    };
    let right: int = if x == 9 {
        40
    } else {
        h[x + 1] as int
    };
    let lower: int = if left <= right {
        left
    } else {
        right
    };
    if lower - h[x] > 0 {
        lower - (h[x] as int)
    } else {
        0
    }
}

pub fn well_depths(board: &Board) -> (r: Vec<i64>)
    requires
        board.wf(),
    ensures
        r@.len() == 10,
        forall|x: int| 0 <= x < 10 ==> #[trigger] r@[x] == spec_well_depth(*board, x),
        forall|x: int| 0 <= x < 10 ==> 0 <= #[trigger] r@[x] <= 40,
{
    let mut r: Vec<i64> = Vec::new();
    let mut x: usize = 0;
    while x < 10
        invariant
            board.wf(),
            0 <= x <= 10,
            r@.len() == x,
            forall|j: int| 0 <= j < x ==> #[trigger] r@[j] == spec_well_depth(*board, j),
            forall|j: int| 0 <= j < x ==> 0 <= #[trigger] r@[j] <= 40,
        decreases 10 - x,
    {
        let left: u32 = if x == 0 {
            40
        } else {
            board.collumn_heights[x - 1]
        };
        let right: u32 = if x == 9 {
            40
        } else {
            board.collumn_heights[x + 1]
        };
        let lower: u32 = if left <= right {
            left
        } else {
            right
        };
        let h = board.collumn_heights[x];
        let d: i64 = if lower > h {
            (lower - h) as i64
        } else {
            0
        };
        r.push(d);
        x = x + 1;
    }
    r
}

/// The two deepest wells: the first result is the deepest anywhere, and no
/// other column is deeper than the second result.
pub fn two_deepest_well_depths(well_depths: &Vec<i64>) -> (r: (i64, i64))
    requires
        well_depths@.len() == 10,
        forall|x: int| 0 <= x < 10 ==> 0 <= #[trigger] well_depths@[x] <= 40,
    ensures
        0 <= r.1 <= r.0 <= 40,
        forall|x: int| 0 <= x < 10 ==> #[trigger] well_depths@[x] <= r.0,
        exists|i: int, i2: int|
            0 <= i < 10 && 0 <= i2 < 10 && i != i2 && r.0 == well_depths@[i] && r.1
                == well_depths@[i2] && (forall|j: int|
                0 <= j < 10 && j != i ==> #[trigger] well_depths@[j] <= r.1),
{
    let d0 = well_depths[0];
    let d1 = well_depths[1];
    let mut max1: i64;
    let mut max2: i64;
    let ghost mut idx1: int;
    let ghost mut idx2: int;
    if d0 >= d1 {
        max1 = d0;
        max2 = d1;
        proof {
            idx1 = 0;
            idx2 = 1;
        }
    } else {
        max1 = d1;
        max2 = d0;
        proof {
            idx1 = 1;
            idx2 = 0;
        }
    }
    let mut x: usize = 2;
    while x < 10
        invariant
            well_depths@.len() == 10,
            forall|j: int| 0 <= j < 10 ==> 0 <= #[trigger] well_depths@[j] <= 40,
            2 <= x <= 10,
            0 <= max2 <= max1 <= 40,
            0 <= idx1 < x,
            0 <= idx2 < x,
            idx1 != idx2,
            max1 == well_depths@[idx1],
            max2 == well_depths@[idx2],
            forall|j: int| 0 <= j < x ==> #[trigger] well_depths@[j] <= max1,
            forall|j: int| 0 <= j < x && j != idx1 ==> #[trigger] well_depths@[j] <= max2,
        decreases 10 - x,
    {
        let d = well_depths[x];
        if d > max1 {
            max2 = max1;
            max1 = d;
            proof {
                idx2 = idx1;
                idx1 = x as int;
            }
        } else if d > max2 {
            max2 = d;
            proof {
                idx2 = x as int;
            }
        }
        x = x + 1;
    }
    proof {
        assert(0 <= idx1 < 10 && 0 <= idx2 < 10 && idx1 != idx2 && max1 == well_depths@[idx1]
            && max2 == well_depths@[idx2] && (forall|j: int|
            0 <= j < 10 && j != idx1 ==> #[trigger] well_depths@[j] <= max2));
    }
    (max1, max2)
}

pub open spec fn spec_max_height_upto(h: Seq<u32>, x: int) -> int
    decreases x,
{
    if x <= 1 {
        h[0] as int
    } else if h[x - 1] as int > spec_max_height_upto(h, x - 1) {
        h[x - 1] as int
    } else {
        spec_max_height_upto(h, x - 1)
    }
}

/// The height of the tallest column.
pub open spec fn spec_max_height(b: Board) -> int {
    spec_max_height_upto(b.collumn_heights@, 10)
}

pub fn hight(board: &Board) -> (r: i64)
    requires
        board.wf(),
    ensures
        r == spec_max_height(*board),
        0 <= r <= 40,
{
    let mut m: u32 = board.collumn_heights[0];
    let mut i: usize = 1;
    while i < 10
        invariant
            board.wf(),
            1 <= i <= 10,
            m as int == spec_max_height_upto(board.collumn_heights@, i as int),
            m <= 40,
        decreases 10 - i,
    {
        let h = board.collumn_heights[i];
        if h > m {
            m = h;
        }
        i = i + 1;
    }
    m as i64
}

/// The characterization of the two deepest wells: nothing is deeper than
/// the first, and away from one column attaining it the second is the
/// deepest, attained by another column — which pins both values.
pub open spec fn spec_two_deepest(b: Board, d1: int, d2: int) -> bool {
    &&& 0 <= d2 <= d1 <= 40
    &&& (forall|x: int| 0 <= x < 10 ==> #[trigger] spec_well_depth(b, x) <= d1)
    &&& (exists|i: int, i2: int|
        0 <= i < 10 && 0 <= i2 < 10 && i != i2 && d1 == spec_well_depth(b, i) && d2
            == spec_well_depth(b, i2) && (forall|j: int|
            0 <= j < 10 && j != i ==> #[trigger] spec_well_depth(b, j) <= d2))
}

/// The board-shape part of the score, given the two deepest well depths.
pub open spec fn spec_value(ev: Evaluator, s: State, d1: int, d2: int) -> int {
    let b = s.board;
    let bump = spec_bumpiness(b);
    let cav = spec_cavities_upto(b, 10);
    let over = spec_overhangs_upto(b, 10);
    let cov = spec_covers_upto(b, 10);
    let hi = spec_max_height(b);
    spec_term(bump, ev.bumpiness) + spec_term(bump * bump, ev.bumpiness_sq) + spec_term(
        cav,
        ev.cavities,
    ) + spec_term(cav * cav, ev.cavities_sq) + spec_term(over, ev.overhangs) + spec_term(
        over * over,
        ev.overhangs_sq,
    ) + spec_term(cov, ev.covers) + spec_term(cov * cov, ev.covers_sq) + spec_term(
        d1,
        ev.well_depth_1,
    ) + spec_term(d1 * d1, ev.well_depth_1_sq) + spec_term(d2, ev.well_depth_2) + spec_term(
        d2 * d2,
        ev.well_depth_2_sq,
    ) + spec_term(hi, ev.hight) + spec_term(hi * hi, ev.hight_sq) + (if s.b2b {
        ev.b2b as int
    } else {
        0int
    }) + spec_holding_value(ev, s.hold_piece)
}

pub open spec fn spec_holding_value(ev: Evaluator, hold: Option<Piece>) -> int {
    match hold {
        Some(p) => match p {
            Piece::S => ev.holding[0] as int,
            Piece::Z => ev.holding[0] as int,
            Piece::J => ev.holding[1] as int,
            Piece::L => ev.holding[1] as int,
            Piece::T => ev.holding[2] as int,
            Piece::O => ev.holding[3] as int,
            Piece::I => ev.holding[4] as int,
        },
        None => 0,
    }
}

/// The last-action part of the score.
pub open spec fn spec_reward(ev: Evaluator, s: State) -> int {
    match s.last_action {
        Some(la) => spec_term(spec_clamped(la.time), ev.move_time) + (if la.placed_piece
            == Piece::I && la.placement_kind == PlacementKind::NoClear {
            ev.wasted_i as int
        } else {
            0int
        }) + (if la.b2b {
            ev.b2b_clear as int
        } else {
            0int
        }) + spec_term(spec_clamped(la.combo), ev.combo_garbage) + (match la.placement_kind {
            PlacementKind::Clear1 => ev.clear1 as int,
            PlacementKind::Clear2 => ev.clear2 as int,
            PlacementKind::Clear3 => ev.clear3 as int,
            PlacementKind::Clear4 => ev.clear4 as int,
            _ => 0int,
        }),
        None => 0,
    }
}

impl Evaluator {
    /// Scores a state: the reward reflects the last action alone, the value
    /// the shape of the board, the held piece and the chain flag. Both stay
    /// within the bound the search relies on.
    pub fn evaluate(&self, state: &State) -> (r: (i64, i64))
        requires
            state.board.wf(),
        ensures
            r.0 == spec_reward(*self, *state),
            exists|d1: int, d2: int|
                spec_two_deepest(state.board, d1, d2) && r.1 == spec_value(
                    *self,
                    *state,
                    d1,
                    d2,
                ),
            -EVAL_BOUND <= r.0 <= EVAL_BOUND,
            -EVAL_BOUND <= r.1 <= EVAL_BOUND,
    {
        let mut value: i64 = 0;
        let mut reward: i64 = 0;

        let bump = bumpiness(&state.board);
        value = value + term(bump, self.bumpiness);
        value = value + term(square(bump), self.bumpiness_sq);

        let (cav, over) = cavities_and_overhangs(&state.board);
        value = value + term(cav, self.cavities);
        value = value + term(square(cav), self.cavities_sq);
        value = value + term(over, self.overhangs);
        value = value + term(square(over), self.overhangs_sq);

        let cov = covers(&state.board);
        value = value + term(cov, self.covers);
        value = value + term(square(cov), self.covers_sq);

        let depths = well_depths(&state.board);
        let (d1, d2) = two_deepest_well_depths(&depths);
        value = value + term(d1, self.well_depth_1);
        value = value + term(square(d1), self.well_depth_1_sq);
        value = value + term(d2, self.well_depth_2);
        value = value + term(square(d2), self.well_depth_2_sq);

        let hi = hight(&state.board);
        value = value + term(hi, self.hight);
        value = value + term(square(hi), self.hight_sq);

        if state.b2b {
            value = value + self.b2b as i64;
        }

        match state.hold_piece {
            Some(p) => {
                let w: i32 = match p {
                    Piece::S => self.holding[0],
                    Piece::Z => self.holding[0],
                    Piece::J => self.holding[1],
                    Piece::L => self.holding[1],
                    Piece::T => self.holding[2],
                    Piece::O => self.holding[3],
                    Piece::I => self.holding[4],
                };
                value = value + w as i64;
            },
            None => {},
        }

        proof {
            assert(spec_two_deepest(state.board, d1 as int, d2 as int)) by {
                assert forall|x: int| 0 <= x < 10 implies #[trigger] spec_well_depth(
                    state.board,
                    x,
                ) <= d1 by {
                    assert(depths@[x] == spec_well_depth(state.board, x));
                }
                let (i, i2) = choose|i: int, i2: int|
                    0 <= i < 10 && 0 <= i2 < 10 && i != i2 && d1 == depths@[i] && d2 == depths@[i2]
                        && (forall|j: int| 0 <= j < 10 && j != i ==> #[trigger] depths@[j] <= d2);
                assert(d1 == spec_well_depth(state.board, i));
                assert(d2 == spec_well_depth(state.board, i2));
                assert forall|j: int| 0 <= j < 10 && j != i implies #[trigger] spec_well_depth(
                    state.board,
                    j,
                ) <= d2 by {
                    assert(depths@[j] == spec_well_depth(state.board, j));
                    assert(depths@[j] <= d2);
                }
            }
            assert(value == spec_value(*self, *state, d1 as int, d2 as int));
        }

        match &state.last_action {
            Some(la) => {
                reward = reward + term(clamped(la.time), self.move_time);
                let wasted = matches!(la.placed_piece, Piece::I) && matches!(
                    la.placement_kind,
                    PlacementKind::NoClear
                );
                if wasted {
                    reward = reward + self.wasted_i as i64;
                }
                if la.b2b {
                    reward = reward + self.b2b_clear as i64;
                }
                reward = reward + term(clamped(la.combo), self.combo_garbage);
                let clear_bonus: i32 = match la.placement_kind {
                    PlacementKind::Clear1 => self.clear1,
                    PlacementKind::Clear2 => self.clear2,
                    PlacementKind::Clear3 => self.clear3,
                    PlacementKind::Clear4 => self.clear4,
                    _ => 0,
                };
                reward = reward + clear_bonus as i64;
            },
            None => {},
        }

        (reward, value)
    }
}

} // verus!
