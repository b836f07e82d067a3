//! Fixed rule tables: action time costs and attack (garbage) quantities.

use vstd::prelude::*;
use crate::state::PlacementKind;

verus! {

/// Time costs of the elementary actions, in abstract time units.
pub struct ActionTime {
    pub move_one: u32,
    pub hard_drop: u32,
    pub rotate: u32,
    pub hold: u32,
    pub place: u32,
    pub single: u32,
    pub double: u32,
    pub triple: u32,
    pub tetris: u32,
    pub perfect_clear: u32,
}

pub const TIME_MOVE_ONE: u32 = 1;
pub const TIME_HARD_DROP: u32 = 1;
pub const TIME_ROTATE: u32 = 1;
pub const TIME_HOLD: u32 = 1;
pub const TIME_PLACE: u32 = 6;
pub const TIME_SINGLE: u32 = 50;
pub const TIME_DOUBLE: u32 = 50;
pub const TIME_TRIPLE: u32 = 50;
pub const TIME_TETRIS: u32 = 50;
pub const TIME_PERFECT_CLEAR: u32 = 1;

impl ActionTime {
    /// The one rule set this engine plays.
    pub fn default_values() -> (r: ActionTime)
        ensures
            r.move_one == TIME_MOVE_ONE,
            r.hard_drop == TIME_HARD_DROP,
            r.rotate == TIME_ROTATE,
            r.hold == TIME_HOLD,
            r.place == TIME_PLACE,
            r.single == TIME_SINGLE,
            r.double == TIME_DOUBLE,
            r.triple == TIME_TRIPLE,
            r.tetris == TIME_TETRIS,
            r.perfect_clear == TIME_PERFECT_CLEAR,
    {
        ActionTime {
            move_one: TIME_MOVE_ONE,
            hard_drop: TIME_HARD_DROP,
            rotate: TIME_ROTATE,
            hold: TIME_HOLD,
            place: TIME_PLACE,
            single: TIME_SINGLE,
            double: TIME_DOUBLE,
            triple: TIME_TRIPLE,
            tetris: TIME_TETRIS,
            perfect_clear: TIME_PERFECT_CLEAR,
        }
    }
}

/// Attack bonuses that do not come from the row-clear table alone.
pub struct SpecialAttack {
    pub b2b: u32,
    pub perfect_clear: u32,
}

pub const ATTACK_B2B: u32 = 1;
pub const ATTACK_PERFECT_CLEAR: u32 = 10;

impl SpecialAttack {
    pub fn default_values() -> (r: SpecialAttack)
        ensures
            r.b2b == ATTACK_B2B,
            r.perfect_clear == ATTACK_PERFECT_CLEAR,
    {
        SpecialAttack { b2b: ATTACK_B2B, perfect_clear: ATTACK_PERFECT_CLEAR }
    }
}

/// Chance, out of ten, that one garbage row reuses the previous hole column.
pub const SAME_HOLE_CHANCE_IN_TEN: u32 = 7;

/// Attack awarded for each placement classification.
pub open spec fn spec_base_attack(placement_kind: PlacementKind) -> u32 {
    match placement_kind {
        PlacementKind::NoClear => 0u32,
        PlacementKind::Clear1 => 0u32,
        PlacementKind::Clear2 => 1u32,
        PlacementKind::Clear3 => 2u32,
        PlacementKind::Clear4 => 4u32,
        PlacementKind::MiniTspin => 0u32,
        PlacementKind::MiniTspin1 => 0u32,
        PlacementKind::MiniTspin2 => 1u32,
        PlacementKind::Tspin => 0u32,
        PlacementKind::Tspin1 => 2u32,
        PlacementKind::Tspin2 => 4u32,
        PlacementKind::Tspin3 => 6u32,
    }
}

pub fn base_attack(placement_kind: PlacementKind) -> (r: u32)
    ensures
        r == spec_base_attack(placement_kind),
{
    match placement_kind {
        PlacementKind::NoClear => 0,
        PlacementKind::Clear1 => 0,
        PlacementKind::Clear2 => 1,
        PlacementKind::Clear3 => 2,
        PlacementKind::Clear4 => 4,
        PlacementKind::MiniTspin => 0,
        PlacementKind::MiniTspin1 => 0,
        PlacementKind::MiniTspin2 => 1,
        PlacementKind::Tspin => 0,
        PlacementKind::Tspin1 => 2,
        PlacementKind::Tspin2 => 4,
        PlacementKind::Tspin3 => 6,
    }
}

/// Attack awarded for the running combo count: monotone, saturating at five.
pub open spec fn spec_combo_attack(combo: u32) -> u32 {
    if combo <= 1 {
        0u32
    } else if combo <= 3 {
        1u32
    } else if combo <= 5 {
        2u32
    } else if combo <= 7 {
        3u32
    } else if combo <= 10 {
        4u32
    } else {
        5u32
    }
}

pub fn combo_attack(combo: u32) -> (r: u32)
    ensures
        r == spec_combo_attack(combo),
{
    match combo {
        0 => 0,
        1 => 0,
        2 => 1,
        3 => 1,
        4 => 2,
        5 => 2,
        6 => 3,
        7 => 3,
        8 => 4,
        9 => 4,
        10 => 4,
        _ => 5,
    }
}

/// Whether a placement classification keeps the back-to-back chain alive.
pub open spec fn spec_is_b2b_enabled(placement_kind: PlacementKind) -> bool {
    match placement_kind {
        PlacementKind::Clear4 => true,
        PlacementKind::MiniTspin => true,
        PlacementKind::MiniTspin1 => true,
        PlacementKind::MiniTspin2 => true,
        PlacementKind::Tspin => true,
        PlacementKind::Tspin1 => true,
        PlacementKind::Tspin2 => true,
        PlacementKind::Tspin3 => true,
        _ => false,
    }
}

pub fn is_b2b_enabled(placement_kind: PlacementKind) -> (r: bool)
    ensures
        r == spec_is_b2b_enabled(placement_kind),
{
    matches!(
        placement_kind,
        PlacementKind::Clear4 | PlacementKind::MiniTspin | PlacementKind::MiniTspin1
            | PlacementKind::MiniTspin2 | PlacementKind::Tspin | PlacementKind::Tspin1
            | PlacementKind::Tspin2 | PlacementKind::Tspin3
    )
}

} // verus!
