//! Raw per-game records as the external feed reports them.
//!
//! The surrounding program decodes the feed's wire format and hands the
//! records over as plain values; every translation of those values (outcome
//! codes, category codes, team identifiers) is done here or in `reconcile`
//! and `points`.

use vstd::prelude::*;

verus! {

/// One side of a game as the feed reports it: the team's external (feed)
/// identifier and, for completed games, its final tally.
#[derive(Copy, Clone, Debug, PartialEq, Eq, Structural)]
pub struct GameTeam {
    pub id: i32,
    pub score: Option<i32>,
}

/// How a completed game ended, in the feed's three-symbol vocabulary.
#[derive(Copy, Clone, Debug, PartialEq, Eq, Structural)]
pub enum PeriodType {
    SO,
    REG,
    OT,
}

/// The feed's game-state word. It accompanies each record but carries no
/// information the engine uses beyond the category code.
#[derive(Copy, Clone, Debug, PartialEq, Eq, Structural)]
pub enum GameState {
    FINAL,
    OFF,
    FUT,
}

/// The outcome block of a completed game, holding the feed's raw
/// outcome-type code. The code is translated by [`PeriodType::from_code`];
/// a code outside the feed's three-symbol vocabulary is a fatal condition
/// wherever an outcome is consumed.
#[derive(Clone, Debug, PartialEq, Eq)]
pub struct GameOutcome {
    pub last_period_type: String,
}

/// One raw game record from a team's fetched schedule.
#[derive(Clone, Debug, PartialEq, Eq)]
pub struct Game {
    pub id: i32,
    pub home_team: GameTeam,
    pub away_team: GameTeam,
    pub game_type: u8,
    pub game_outcome: Option<GameOutcome>,
    pub game_state: GameState,
}

/// All fetched games of one team, in the feed's (chronological) order.
#[derive(Clone, Debug, PartialEq, Eq)]
pub struct TeamSchedule {
    pub games: Vec<Game>,
}

/// One whole fetch: per team, keyed by the team's external identifier,
/// that team's schedule.
#[derive(Clone, Debug, PartialEq, Eq)]
pub struct ApiResponse {
    pub schedules: Vec<(i32, TeamSchedule)>,
}

/// The category code the feed uses for preseason games.
pub const PRESEASON_GAME_TYPE: u8 = 1;

/// The category code the feed uses for regular-season games. Only games of
/// this category are reconciled into the ledger or derive points.
pub const REGULAR_SEASON_GAME_TYPE: u8 = 2;

/// The meaning of a raw outcome-type code: `SO`, `REG` and `OT` are the
/// feed's closed vocabulary; anything else is unknown.
pub open spec fn spec_period_type_of(code: Seq<char>) -> Option<PeriodType> {
    if code == "SO"@ {
        Some(PeriodType::SO)
    } else if code == "REG"@ {
        Some(PeriodType::REG)
    } else if code == "OT"@ {
        Some(PeriodType::OT)
    } else {
        None
    }
}

/// The meaning of a raw game-state word.
pub open spec fn spec_game_state_of(code: Seq<char>) -> Option<GameState> {
    if code == "FINAL"@ {
        Some(GameState::FINAL)
    } else if code == "OFF"@ {
        Some(GameState::OFF)
    } else if code == "FUT"@ {
        Some(GameState::FUT)
    } else {
        None
    }
}

impl PeriodType {
    /// Translates a raw feed outcome-type code; `None` for a code outside
    /// the feed's vocabulary.
    pub fn from_code(code: &String) -> (r: Option<PeriodType>)
        ensures
            r == spec_period_type_of(code@),
    {
        if *code == "SO".to_owned() {
            Some(PeriodType::SO)
        } else if *code == "REG".to_owned() {
            Some(PeriodType::REG)
        } else if *code == "OT".to_owned() {
            Some(PeriodType::OT)
        } else {
            None
        }
    }
}

impl GameState {
    /// Translates a raw feed game-state word; `None` for an unknown word.
    pub fn from_code(code: &String) -> (r: Option<GameState>)
        ensures
            r == spec_game_state_of(code@),
    {
        if *code == "FINAL".to_owned() {
            Some(GameState::FINAL)
        } else if *code == "OFF".to_owned() {
            Some(GameState::OFF)
        } else if *code == "FUT".to_owned() {
            Some(GameState::FUT)
        } else {
            None
        }
    }
}

impl Game {
    /// Whether the feed marked this game as a preseason game.
    pub fn is_preseason(&self) -> (r: bool)
        ensures
            r == (self.game_type == PRESEASON_GAME_TYPE),
    {
        self.game_type == PRESEASON_GAME_TYPE
    }

    /// Whether the feed marked this game as a regular-season game. Only
    /// such games participate in reconciliation and derivation.
    pub fn is_regular_season(&self) -> (r: bool)
        ensures
            r == (self.game_type == REGULAR_SEASON_GAME_TYPE),
    {
        self.game_type == REGULAR_SEASON_GAME_TYPE
    }
}

} // verus!
