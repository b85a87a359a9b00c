//! Reference-data translation: division and team rows into the domain
//! model, and the feed's code vocabularies.

use hockeyplots::errors::FatalError;
use hockeyplots::feed::{GameOutcome, GameState, GameTeam, PeriodType};
use hockeyplots::model::{get_teams, Division};
use hockeyplots::store;

fn divisions() -> Vec<store::Division> {
    vec![
        store::Division { id: 1, name: "Central".to_string() },
        store::Division { id: 2, name: "Pacific".to_string() },
        store::Division { id: 3, name: "Atlantic".to_string() },
        store::Division { id: 4, name: "Metropolitan".to_string() },
    ]
}

fn team_row(id: i32, api_id: i32, division_id: i32) -> store::Team {
    store::Team {
        id,
        api_id,
        r: 200,
        g: 100,
        b: 50,
        abbrev: format!("T{}", api_id),
        division_id,
    }
}

#[test]
fn team_row_translates_identity_color_and_division() {
    let t = team_row(7, 107, 2).db_to_crate(&divisions()).unwrap();
    assert_eq!(t.db_id, 7);
    assert_eq!(t.api_id, 107);
    assert_eq!((t.color.r, t.color.g, t.color.b), (200, 100, 50));
    assert_eq!(t.abbrev, "T107");
    assert_eq!(t.division, Division::Pacific);
}

#[test]
fn every_division_name_maps_to_its_variant() {
    let ds = divisions();
    assert_eq!(team_row(1, 101, 1).db_to_crate(&ds).unwrap().division, Division::Central);
    assert_eq!(team_row(2, 102, 3).db_to_crate(&ds).unwrap().division, Division::Atlantic);
    assert_eq!(
        team_row(3, 103, 4).db_to_crate(&ds).unwrap().division,
        Division::Metropolitan
    );
}

#[test]
fn missing_division_row_is_fatal() {
    assert_eq!(
        team_row(1, 101, 9).db_to_crate(&divisions()),
        Err(FatalError::UnknownDivisionId(9))
    );
}

#[test]
fn unrecognized_division_name_is_fatal() {
    let ds = vec![store::Division { id: 5, name: "Northwest".to_string() }];
    assert_eq!(
        team_row(1, 101, 5).db_to_crate(&ds),
        Err(FatalError::UnknownDivisionName(5))
    );
}

#[test]
fn get_teams_translates_the_whole_table_in_order() {
    let rows = vec![team_row(1, 101, 1), team_row(2, 102, 4)];
    let teams = get_teams(&rows, &divisions()).unwrap();
    assert_eq!(teams.len(), 2);
    assert_eq!(teams[0].api_id, 101);
    assert_eq!(teams[1].division, Division::Metropolitan);
}

#[test]
fn get_teams_stops_at_the_first_bad_row() {
    let rows = vec![team_row(1, 101, 1), team_row(2, 102, 9)];
    assert_eq!(get_teams(&rows, &divisions()), Err(FatalError::UnknownDivisionId(9)));
}

#[test]
fn period_type_codes_translate_and_unknown_codes_do_not() {
    assert_eq!(PeriodType::from_code(&"SO".to_string()), Some(PeriodType::SO));
    assert_eq!(PeriodType::from_code(&"REG".to_string()), Some(PeriodType::REG));
    assert_eq!(PeriodType::from_code(&"OT".to_string()), Some(PeriodType::OT));
    assert_eq!(PeriodType::from_code(&"2OT".to_string()), None);
    assert_eq!(PeriodType::from_code(&"".to_string()), None);
}

#[test]
fn game_state_words_translate_and_unknown_words_do_not() {
    assert_eq!(GameState::from_code(&"FINAL".to_string()), Some(GameState::FINAL));
    assert_eq!(GameState::from_code(&"OFF".to_string()), Some(GameState::OFF));
    assert_eq!(GameState::from_code(&"FUT".to_string()), Some(GameState::FUT));
    assert_eq!(GameState::from_code(&"LIVE".to_string()), None);
}

#[test]
fn category_codes_distinguish_preseason_from_regular_season() {
    let mut g = hockeyplots::feed::Game {
        id: 1,
        home_team: GameTeam { id: 101, score: None },
        away_team: GameTeam { id: 102, score: None },
        game_type: 1,
        game_outcome: None,
        game_state: GameState::FUT,
    };
    assert!(g.is_preseason());
    assert!(!g.is_regular_season());
    g.game_type = 2;
    assert!(!g.is_preseason());
    assert!(g.is_regular_season());
    g.game_type = 3;
    assert!(!g.is_preseason());
    assert!(!g.is_regular_season());
    let _ = GameOutcome { last_period_type: "REG".to_string() };
}
