//! Points deriver behaviour: the points rule, series construction, the
//! no-score skip, the fresh-fetch and ledger paths agreeing, and the fatal
//! path on unknown outcome codes.

use hockeyplots::errors::FatalError;
use hockeyplots::feed::{ApiResponse, Game, GameOutcome, GameState, GameTeam, TeamSchedule};
use hockeyplots::model;
use hockeyplots::model::{Color, Division, Points, Team};
use hockeyplots::points::{
    all_games, cumulative_series, games_from_schedule, make_app_data, team_games_to_crate,
    SeriesPoint,
};
use hockeyplots::reconcile::{build_outcome_map, reconcile_apply};
use hockeyplots::store;
use hockeyplots::store::Ledger;

fn team(db_id: i32, api_id: i32) -> Team {
    Team {
        db_id,
        api_id,
        color: Color { r: 10, g: 20, b: 30 },
        abbrev: format!("T{}", api_id),
        division: Division::Pacific,
    }
}

fn lpts() -> Vec<store::LastPeriodType> {
    vec![
        store::LastPeriodType { id: 11, name: "Regulation".to_string() },
        store::LastPeriodType { id: 12, name: "Overtime".to_string() },
        store::LastPeriodType { id: 13, name: "Shootout".to_string() },
    ]
}

fn fgame(
    id: i32,
    home: i32,
    hs: Option<i32>,
    away: i32,
    aws: Option<i32>,
    game_type: u8,
    code: Option<&str>,
) -> Game {
    Game {
        id,
        home_team: GameTeam { id: home, score: hs },
        away_team: GameTeam { id: away, score: aws },
        game_type,
        game_outcome: code.map(|c| GameOutcome { last_period_type: c.to_string() }),
        game_state: GameState::OFF,
    }
}

fn scored(points: Points) -> model::Game {
    model::Game { points: Some(points) }
}

fn unscored() -> model::Game {
    model::Game { points: None }
}

#[test]
fn regulation_win_is_two_loss_is_zero() {
    let a = team(1, 101);
    let b = team(2, 102);
    let g = fgame(1, 101, Some(4), 102, Some(2), 2, Some("REG"));
    let pa = g.api_to_crate(&a).unwrap().points.unwrap();
    let pb = g.api_to_crate(&b).unwrap().points.unwrap();
    assert_eq!(pa, Points::Win);
    assert_eq!(pb, Points::RegulationLoss);
    assert_eq!(pa.as_i64(), 2);
    assert_eq!(pb.as_i64(), 0);
}

#[test]
fn overtime_loss_is_one_winner_still_two() {
    let a = team(1, 101);
    let b = team(2, 102);
    let g = fgame(2, 101, Some(3), 102, Some(4), 2, Some("OT"));
    let pa = g.api_to_crate(&a).unwrap().points.unwrap();
    let pb = g.api_to_crate(&b).unwrap().points.unwrap();
    assert_eq!(pa.as_i64(), 1);
    assert_eq!(pb.as_i64(), 2);
}

#[test]
fn shootout_loss_is_one() {
    let b = team(2, 102);
    let g = fgame(3, 101, Some(2), 102, Some(1), 2, Some("SO"));
    let pb = g.api_to_crate(&b).unwrap().points.unwrap();
    assert_eq!(pb, Points::OvertimeLoss);
}

#[test]
fn unscored_game_has_no_points() {
    let a = team(1, 101);
    let g = fgame(4, 101, None, 102, None, 2, None);
    assert_eq!(g.api_to_crate(&a).unwrap(), unscored());
}

#[test]
fn unknown_outcome_code_aborts_derivation() {
    let a = team(1, 101);
    let g = fgame(5, 101, Some(2), 102, Some(1), 2, Some("XX"));
    assert_eq!(g.api_to_crate(&a), Err(FatalError::UnknownOutcomeCode(5)));
}

#[test]
fn final_game_without_tally_aborts_derivation() {
    let a = team(1, 101);
    let g = fgame(6, 101, None, 102, Some(1), 2, Some("REG"));
    assert_eq!(g.api_to_crate(&a), Err(FatalError::MissingScore(6)));
}

#[test]
fn stored_unknown_outcome_name_aborts_derivation() {
    let a = team(1, 101);
    let row = store::Game { api_id: 7, home_team_id: 1, away_team_id: 2, score_id: Some(1) };
    let s = store::Score { id: 1, home: 1, away: 2, last_period_type_id: 99 };
    let odd = store::LastPeriodType { id: 99, name: "Sudden Death".to_string() };
    assert_eq!(
        row.db_to_crate(Some((s, odd)), &a),
        Err(FatalError::UnknownOutcomeName(99))
    );
}

#[test]
fn series_of_three_scored_games_matches_the_rule() {
    let games = vec![
        scored(Points::Win),
        scored(Points::RegulationLoss),
        scored(Points::OvertimeLoss),
    ];
    let series = cumulative_series(&games, 1);
    assert_eq!(
        series,
        vec![
            SeriesPoint { index: 0, value: 0 },
            SeriesPoint { index: 1, value: 1 },
            SeriesPoint { index: 2, value: 0 },
            SeriesPoint { index: 3, value: 0 },
        ]
    );
}

#[test]
fn unscored_games_are_skipped_but_keep_their_position() {
    let games = vec![scored(Points::Win), unscored(), scored(Points::RegulationLoss)];
    let series = cumulative_series(&games, 1);
    assert_eq!(series.len(), 3);
    assert_eq!(series[0], SeriesPoint { index: 0, value: 0 });
    assert_eq!(series[1], SeriesPoint { index: 1, value: 1 });
    assert_eq!(series[2], SeriesPoint { index: 3, value: 0 });
}

#[test]
fn team_with_no_games_yields_only_the_origin() {
    let series = cumulative_series(&Vec::new(), 1);
    assert_eq!(series, vec![SeriesPoint { index: 0, value: 0 }]);
}

#[test]
fn zero_baseline_accumulates_raw_points() {
    let games = vec![scored(Points::Win), scored(Points::OvertimeLoss)];
    let series = cumulative_series(&games, 0);
    assert_eq!(series[1], SeriesPoint { index: 1, value: 2 });
    assert_eq!(series[2], SeriesPoint { index: 2, value: 3 });
}

#[test]
fn ledger_read_back_agrees_with_fresh_derivation() {
    let teams = vec![team(1, 101), team(2, 102)];
    let schedule_a = vec![
        fgame(500, 101, Some(4), 102, Some(2), 2, Some("REG")),
        fgame(501, 102, Some(4), 101, Some(3), 2, Some("OT")),
        fgame(502, 101, None, 102, None, 2, None),
        fgame(503, 101, Some(1), 102, Some(2), 1, Some("REG")),
    ];
    let schedule_b = vec![
        fgame(500, 101, Some(4), 102, Some(2), 2, Some("REG")),
        fgame(501, 102, Some(4), 101, Some(3), 2, Some("OT")),
        fgame(502, 101, None, 102, None, 2, None),
    ];
    let batch = ApiResponse {
        schedules: vec![
            (101, TeamSchedule { games: schedule_a.clone() }),
            (102, TeamSchedule { games: schedule_b }),
        ],
    };
    let om = build_outcome_map(&lpts()).unwrap();
    let mut ledger = Ledger::new();
    reconcile_apply(&mut ledger, &batch, &teams, &om).unwrap();

    let fresh = make_app_data(&batch, &teams).unwrap();
    let stored = all_games(&ledger, &lpts(), &teams).unwrap();

    let fresh_a = &fresh.iter().find(|(k, _)| *k == 101).unwrap().1;
    let stored_a = &stored.iter().find(|(k, _)| *k == 101).unwrap().1;
    assert_eq!(fresh_a, stored_a);
    assert_eq!(
        fresh_a,
        &vec![scored(Points::Win), scored(Points::OvertimeLoss), unscored()]
    );

    let fresh_b = &fresh.iter().find(|(k, _)| *k == 102).unwrap().1;
    let stored_b = &stored.iter().find(|(k, _)| *k == 102).unwrap().1;
    assert_eq!(fresh_b, stored_b);
    assert_eq!(
        fresh_b,
        &vec![scored(Points::RegulationLoss), scored(Points::Win), unscored()]
    );
}

#[test]
fn fresh_path_skips_non_regular_season_games() {
    let a = team(1, 101);
    let schedule = TeamSchedule {
        games: vec![
            fgame(600, 101, Some(5), 102, Some(0), 1, Some("REG")),
            fgame(601, 101, Some(2), 102, Some(1), 2, Some("REG")),
        ],
    };
    let games = games_from_schedule(&schedule, &a).unwrap();
    assert_eq!(games, vec![scored(Points::Win)]);
}

#[test]
fn make_app_data_rejects_unknown_schedule_key() {
    let teams = vec![team(1, 101)];
    let batch = ApiResponse { schedules: vec![(999, TeamSchedule { games: vec![] })] };
    assert_eq!(make_app_data(&batch, &teams), Err(FatalError::UnknownTeam(999)));
}

#[test]
fn dangling_outcome_type_reference_is_fatal_on_read_back() {
    let a = team(1, 101);
    let mut ledger = Ledger::new();
    let sid = ledger.insert_score(2, 1, 99);
    ledger.insert_game(store::Game {
        api_id: 700,
        home_team_id: 1,
        away_team_id: 2,
        score_id: Some(sid),
    });
    assert_eq!(
        team_games_to_crate(&ledger, &lpts(), &a),
        Err(FatalError::UnknownOutcomeId(99))
    );
}
