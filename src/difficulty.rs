use vstd::prelude::*;

verus! {

/// The number of rows in the difficulty table.
pub const LEVEL_COUNT: usize = 14;

/// One row of the difficulty table.
#[derive(Clone, Copy, Debug, PartialEq, Eq, Structural)]
pub struct LevelParams {
    /// Total kills at which the game advances past this level.
    pub kills_to_level_up: u32,
    /// The most enemies that may be alive at once.
    pub max_enemies: u32,
    /// Factor applied to enemy damage, in hundredths (120 means 1.2).
    pub damage_multiplier: u32,
}

impl LevelParams {
    pub fn new(kills_to_level_up: u32, max_enemies: u32, damage_multiplier: u32) -> (r: LevelParams)
        ensures
            r == (LevelParams { kills_to_level_up, max_enemies, damage_multiplier }),
    {
        LevelParams { kills_to_level_up, max_enemies, damage_multiplier }
    }
}

/// The row that applies at `level`: levels past the end of the table use the last row.
pub open spec fn clamped_level(level: int) -> int {
    if level < LEVEL_COUNT {
        level
    } else {
        LEVEL_COUNT - 1
    }
}

/// The built-in difficulty curve.
pub open spec fn default_levels() -> Seq<LevelParams> {
    seq![
        LevelParams { kills_to_level_up: 20, max_enemies: 6, damage_multiplier: 100 },
        LevelParams { kills_to_level_up: 40, max_enemies: 7, damage_multiplier: 100 },
        LevelParams { kills_to_level_up: 60, max_enemies: 8, damage_multiplier: 100 },
        LevelParams { kills_to_level_up: 80, max_enemies: 9, damage_multiplier: 100 },
        LevelParams { kills_to_level_up: 110, max_enemies: 10, damage_multiplier: 100 },
        LevelParams { kills_to_level_up: 130, max_enemies: 11, damage_multiplier: 110 },
        LevelParams { kills_to_level_up: 160, max_enemies: 12, damage_multiplier: 120 },
        LevelParams { kills_to_level_up: 200, max_enemies: 12, damage_multiplier: 130 },
        LevelParams { kills_to_level_up: 250, max_enemies: 12, damage_multiplier: 140 },
        LevelParams { kills_to_level_up: 300, max_enemies: 12, damage_multiplier: 150 },
        LevelParams { kills_to_level_up: 350, max_enemies: 12, damage_multiplier: 152 },
        LevelParams { kills_to_level_up: 400, max_enemies: 12, damage_multiplier: 154 },
        LevelParams { kills_to_level_up: 450, max_enemies: 13, damage_multiplier: 156 },
        LevelParams { kills_to_level_up: 500, max_enemies: 14, damage_multiplier: 158 },
    ]
}

/// Builds the built-in difficulty curve.
pub fn default_level_table() -> (r: [LevelParams; 14])
    ensures
        r@ == default_levels(),
{
    let r = [
        LevelParams::new(20, 6, 100),
        LevelParams::new(40, 7, 100),
        LevelParams::new(60, 8, 100),
        LevelParams::new(80, 9, 100),
        LevelParams::new(110, 10, 100),
        LevelParams::new(130, 11, 110),
        LevelParams::new(160, 12, 120),
        LevelParams::new(200, 12, 130),
        LevelParams::new(250, 12, 140),
        LevelParams::new(300, 12, 150),
        LevelParams::new(350, 12, 152),
        LevelParams::new(400, 12, 154),
        LevelParams::new(450, 13, 156),
        LevelParams::new(500, 14, 158),
    ];
    assert(r@ =~= default_levels());
    r
}

} // verus!
