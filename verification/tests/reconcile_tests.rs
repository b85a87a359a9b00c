//! Reconciler behaviour: idempotence, in-batch deduplication, the category
//! filter, fatal conditions, and the shape of the produced mutations.

use hockeyplots::errors::FatalError;
use hockeyplots::feed::{ApiResponse, Game, GameOutcome, GameState, GameTeam, PeriodType, TeamSchedule};
use hockeyplots::model::{Color, Division, Team};
use hockeyplots::reconcile::{apply, build_outcome_map, reconcile, reconcile_apply, OutcomeMap};
use hockeyplots::store;
use hockeyplots::store::Ledger;

fn team(db_id: i32, api_id: i32) -> Team {
    Team {
        db_id,
        api_id,
        color: Color { r: 10, g: 20, b: 30 },
        abbrev: format!("T{}", api_id),
        division: Division::Central,
    }
}

fn teams() -> Vec<Team> {
    vec![team(1, 101), team(2, 102), team(3, 103)]
}

fn lpts() -> Vec<store::LastPeriodType> {
    vec![
        store::LastPeriodType { id: 11, name: "Regulation".to_string() },
        store::LastPeriodType { id: 12, name: "Overtime".to_string() },
        store::LastPeriodType { id: 13, name: "Shootout".to_string() },
    ]
}

fn outcome_map() -> OutcomeMap {
    build_outcome_map(&lpts()).unwrap()
}

fn fgame(
    id: i32,
    home: i32,
    hs: Option<i32>,
    away: i32,
    aws: Option<i32>,
    game_type: u8,
    code: Option<&str>,
) -> Game {
    Game {
        id,
        home_team: GameTeam { id: home, score: hs },
        away_team: GameTeam { id: away, score: aws },
        game_type,
        game_outcome: code.map(|c| GameOutcome { last_period_type: c.to_string() }),
        game_state: GameState::OFF,
    }
}

fn batch(schedules: Vec<(i32, Vec<Game>)>) -> ApiResponse {
    ApiResponse {
        schedules: schedules
            .into_iter()
            .map(|(k, games)| (k, TeamSchedule { games }))
            .collect(),
    }
}

#[test]
fn build_outcome_map_finds_all_three_names() {
    let m = build_outcome_map(&lpts()).unwrap();
    assert_eq!(m.regulation_id, 11);
    assert_eq!(m.overtime_id, 12);
    assert_eq!(m.shootout_id, 13);
}

#[test]
fn build_outcome_map_missing_name_is_fatal() {
    let mut types = lpts();
    types.remove(0);
    assert_eq!(
        build_outcome_map(&types),
        Err(FatalError::MissingOutcomeType(PeriodType::REG))
    );
    let only_reg = vec![store::LastPeriodType { id: 11, name: "Regulation".to_string() }];
    assert_eq!(
        build_outcome_map(&only_reg),
        Err(FatalError::MissingOutcomeType(PeriodType::SO))
    );
}

#[test]
fn reconcile_inserts_scored_and_unscored_games() {
    let ledger = Ledger::new();
    let b = batch(vec![(
        101,
        vec![
            fgame(500, 101, Some(4), 102, Some(2), 2, Some("REG")),
            fgame(501, 102, None, 101, None, 2, None),
        ],
    )]);
    let m = reconcile(&ledger, &b, &teams(), &outcome_map()).unwrap();
    assert_eq!(m.new_games.len(), 2);
    assert_eq!(m.new_scores.len(), 1);
    let s = m.new_scores[0];
    assert_eq!(s.id, 1);
    assert_eq!(s.home, 4);
    assert_eq!(s.away, 2);
    assert_eq!(s.last_period_type_id, 11);
    let g0 = m.new_games[0];
    assert_eq!(g0.api_id, 500);
    assert_eq!(g0.home_team_id, 1);
    assert_eq!(g0.away_team_id, 2);
    assert_eq!(g0.score_id, Some(1));
    let g1 = m.new_games[1];
    assert_eq!(g1.api_id, 501);
    assert_eq!(g1.home_team_id, 2);
    assert_eq!(g1.away_team_id, 1);
    assert_eq!(g1.score_id, None);
}

#[test]
fn apply_appends_mutations_and_advances_generator() {
    let mut ledger = Ledger::new();
    let b = batch(vec![(
        101,
        vec![fgame(500, 101, Some(4), 102, Some(2), 2, Some("REG"))],
    )]);
    let m = reconcile(&ledger, &b, &teams(), &outcome_map()).unwrap();
    apply(&mut ledger, &m);
    assert_eq!(ledger.games.len(), 1);
    assert_eq!(ledger.scores.len(), 1);
    assert_eq!(ledger.next_score_id, 2);
}

#[test]
fn reconciling_twice_is_idempotent() {
    let mut ledger = Ledger::new();
    let b = batch(vec![
        (
            101,
            vec![
                fgame(500, 101, Some(4), 102, Some(2), 2, Some("REG")),
                fgame(501, 102, Some(3), 101, Some(4), 2, Some("OT")),
                fgame(502, 101, None, 103, None, 2, None),
            ],
        ),
        (
            102,
            vec![
                fgame(500, 101, Some(4), 102, Some(2), 2, Some("REG")),
                fgame(503, 103, Some(1), 102, Some(0), 2, Some("SO")),
            ],
        ),
    ]);
    reconcile_apply(&mut ledger, &b, &teams(), &outcome_map()).unwrap();
    let once = ledger.clone();
    reconcile_apply(&mut ledger, &b, &teams(), &outcome_map()).unwrap();
    assert_eq!(ledger, once);
    assert_eq!(ledger.games.len(), 4);
    assert_eq!(ledger.scores.len(), 3);
}

#[test]
fn one_game_id_under_two_teams_yields_one_record() {
    let mut ledger = Ledger::new();
    let g = fgame(600, 101, Some(2), 102, Some(1), 2, Some("REG"));
    let b = batch(vec![(101, vec![g.clone()]), (102, vec![g])]);
    reconcile_apply(&mut ledger, &b, &teams(), &outcome_map()).unwrap();
    assert_eq!(ledger.games.len(), 1);
    assert_eq!(ledger.scores.len(), 1);
    assert_eq!(ledger.games[0].api_id, 600);
}

#[test]
fn preseason_games_never_reach_the_ledger() {
    let mut ledger = Ledger::new();
    let b = batch(vec![(
        101,
        vec![
            fgame(700, 101, Some(5), 102, Some(0), 1, Some("REG")),
            fgame(701, 101, None, 102, None, 1, None),
        ],
    )]);
    reconcile_apply(&mut ledger, &b, &teams(), &outcome_map()).unwrap();
    assert_eq!(ledger.games.len(), 0);
    assert_eq!(ledger.scores.len(), 0);
}

#[test]
fn known_games_are_never_rescored() {
    let mut ledger = Ledger::new();
    let unscored = batch(vec![(101, vec![fgame(800, 101, None, 102, None, 2, None)])]);
    reconcile_apply(&mut ledger, &unscored, &teams(), &outcome_map()).unwrap();
    assert_eq!(ledger.games[0].score_id, None);
    let scored = batch(vec![(
        101,
        vec![fgame(800, 101, Some(3), 102, Some(2), 2, Some("REG"))],
    )]);
    reconcile_apply(&mut ledger, &scored, &teams(), &outcome_map()).unwrap();
    assert_eq!(ledger.games.len(), 1);
    assert_eq!(ledger.scores.len(), 0);
    assert_eq!(ledger.games[0].score_id, None);
}

#[test]
fn unknown_feed_team_is_fatal_and_leaves_ledger_untouched() {
    let mut ledger = Ledger::new();
    let b = batch(vec![(
        101,
        vec![fgame(900, 999, Some(1), 102, Some(0), 2, Some("REG"))],
    )]);
    let r = reconcile_apply(&mut ledger, &b, &teams(), &outcome_map());
    assert_eq!(r, Err(FatalError::UnknownTeam(999)));
    assert_eq!(ledger, Ledger::new());
}

#[test]
fn unknown_outcome_code_is_fatal_in_reconciliation() {
    let ledger = Ledger::new();
    let b = batch(vec![(
        101,
        vec![fgame(901, 101, Some(1), 102, Some(0), 2, Some("2OT"))],
    )]);
    let r = reconcile(&ledger, &b, &teams(), &outcome_map());
    assert_eq!(r, Err(FatalError::UnknownOutcomeCode(901)));
}

#[test]
fn final_game_missing_a_tally_is_fatal() {
    let ledger = Ledger::new();
    let b = batch(vec![(
        101,
        vec![fgame(902, 101, None, 102, Some(0), 2, Some("REG"))],
    )]);
    assert_eq!(
        reconcile(&ledger, &b, &teams(), &outcome_map()),
        Err(FatalError::MissingScore(902))
    );
    let b2 = batch(vec![(
        101,
        vec![fgame(903, 101, Some(2), 102, None, 2, Some("REG"))],
    )]);
    assert_eq!(
        reconcile(&ledger, &b2, &teams(), &outcome_map()),
        Err(FatalError::MissingScore(903))
    );
}

#[test]
fn ledger_lookups_resolve_inserted_rows() {
    let mut ledger = Ledger::new();
    let sid = ledger.insert_score(3, 2, 11);
    assert_eq!(sid, 1);
    ledger.insert_game(store::Game {
        api_id: 42,
        home_team_id: 1,
        away_team_id: 2,
        score_id: Some(sid),
    });
    ledger.insert_game(store::Game {
        api_id: 43,
        home_team_id: 3,
        away_team_id: 1,
        score_id: None,
    });
    assert!(ledger.contains_game(42));
    assert!(!ledger.contains_game(44));
    let s = ledger.find_score(sid).unwrap();
    assert_eq!((s.home, s.away, s.last_period_type_id), (3, 2, 11));
    assert!(ledger.find_score(7).is_none());
    let of_one = ledger.games_for_team(1);
    assert_eq!(of_one.len(), 2);
    let of_two = ledger.games_for_team(2);
    assert_eq!(of_two.len(), 1);
    assert_eq!(of_two[0].api_id, 42);
}
