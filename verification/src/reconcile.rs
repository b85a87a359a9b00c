//! The reconciler: merges a freshly fetched batch into the persisted game
//! ledger, idempotently.
//!
//! Games whose category is not regular-season are discarded before any
//! persistence step; a game already recorded (matched by external
//! identifier) is never re-inserted and never re-scored; a game repeated
//! within one batch is processed exactly once; team and outcome-type
//! identifiers are translated through the reference data, and a missing
//! mapping aborts the pass loudly with no mutation applied.
//!
//! [`reconcile`] produces the pass's mutations without touching the ledger;
//! [`apply`] appends them. The whole pass is pinned down by the
//! mathematical fold [`spec_run`] over the batch's games in fetch order.

use crate::errors::FatalError;
use crate::feed;
use crate::model;
use crate::store;
use crate::store::{has_game_id, has_score_id, ledger_wf, Ledger, LedgerModel};
use vstd::prelude::*;

verus! {

/// The mapping from the feed's outcome-type codes to the reference data's
/// internal outcome-type identifiers, built once per session.
#[derive(Copy, Clone, Debug, PartialEq, Eq, Structural)]
pub struct OutcomeMap {
    pub regulation_id: i32,
    pub overtime_id: i32,
    pub shootout_id: i32,
}

/// The ledger mutations of one reconciliation pass: the new game rows and
/// the new score rows, in processing order.
#[derive(Clone, Debug, PartialEq, Eq)]
pub struct Mutations {
    pub new_games: Vec<store::Game>,
    pub new_scores: Vec<store::Score>,
}

/// The first outcome-type row carrying `name`, if any.
pub open spec fn spec_find_lpt(types: Seq<store::LastPeriodType>, name: Seq<char>) -> Option<
    store::LastPeriodType,
>
    decreases types.len(),
{
    if types.len() == 0 {
        None
    } else if types[0].name@ == name {
        Some(types[0])
    } else {
        spec_find_lpt(types.skip(1), name)
    }
}

/// What building the code mapping yields: the identifiers of the rows named
/// `Regulation`, `Shootout` and `Overtime`, or the first missing name — a
/// fatal condition, since the reference data is then stale.
pub open spec fn spec_build_outcome_map(types: Seq<store::LastPeriodType>) -> Result<
    OutcomeMap,
    FatalError,
> {
    match spec_find_lpt(types, "Regulation"@) {
        None => Err(FatalError::MissingOutcomeType(feed::PeriodType::REG)),
        Some(reg) => match spec_find_lpt(types, "Shootout"@) {
            None => Err(FatalError::MissingOutcomeType(feed::PeriodType::SO)),
            Some(so) => match spec_find_lpt(types, "Overtime"@) {
                None => Err(FatalError::MissingOutcomeType(feed::PeriodType::OT)),
                Some(ot) => Ok(
                    (OutcomeMap {
                        regulation_id: reg.id,
                        overtime_id: ot.id,
                        shootout_id: so.id,
                    }),
                ),
            },
        },
    }
}

/// The internal outcome-type identifier for a feed code.
pub open spec fn spec_outcome_id(om: OutcomeMap, pt: feed::PeriodType) -> i32 {
    match pt {
        feed::PeriodType::REG => om.regulation_id,
        feed::PeriodType::OT => om.overtime_id,
        feed::PeriodType::SO => om.shootout_id,
    }
}

/// Whether the feed marked this game as regular-season; only such games are
/// reconciled or derive points.
pub open spec fn spec_is_regular(g: feed::Game) -> bool {
    g.game_type == feed::REGULAR_SEASON_GAME_TYPE
}

/// What translating one feed game into ledger rows yields, with
/// `next_score_id` as the generated score reference: the game row and, for
/// a completed game, the score row; or the record's fatal condition, in
/// checking order — a missing tally, then an unknown outcome code, then an
/// unknown home or away team.
pub open spec fn spec_translate(
    g: feed::Game,
    teams: Seq<model::Team>,
    om: OutcomeMap,
    next_score_id: int,
) -> Result<(store::Game, Option<store::Score>), FatalError> {
    match g.game_outcome {
        None => match model::spec_find_team_by_api(teams, g.home_team.id) {
            None => Err(FatalError::UnknownTeam(g.home_team.id)),
            Some(ht) => match model::spec_find_team_by_api(teams, g.away_team.id) {
                None => Err(FatalError::UnknownTeam(g.away_team.id)),
                Some(at) => Ok(
                    ((store::Game {
                        api_id: g.id,
                        home_team_id: ht.db_id,
                        away_team_id: at.db_id,
                        score_id: None,
                    }), None),
                ),
            },
        },
        Some(o) => match g.home_team.score {
            None => Err(FatalError::MissingScore(g.id)),
            Some(home) => match g.away_team.score {
                None => Err(FatalError::MissingScore(g.id)),
                Some(away) => match feed::spec_period_type_of(o.last_period_type@) {
                    None => Err(FatalError::UnknownOutcomeCode(g.id)),
                    Some(pt) => match model::spec_find_team_by_api(teams, g.home_team.id) {
                        None => Err(FatalError::UnknownTeam(g.home_team.id)),
                        Some(ht) => match model::spec_find_team_by_api(teams, g.away_team.id) {
                            None => Err(FatalError::UnknownTeam(g.away_team.id)),
                            Some(at) => Ok(
                                ((store::Game {
                                    api_id: g.id,
                                    home_team_id: ht.db_id,
                                    away_team_id: at.db_id,
                                    score_id: Some(next_score_id as i64),
                                }), Some(
                                    (store::Score {
                                        id: next_score_id as i64,
                                        home,
                                        away,
                                        last_period_type_id: spec_outcome_id(om, pt),
                                    }),
                                )),
                            ),
                        },
                    },
                },
            },
        },
    }
}

/// One reconciliation step: a non-regular-season game is discarded, an
/// already-recorded game is skipped, and any other game is translated and
/// appended — with its score, if final, as one logical unit.
pub open spec fn spec_step(
    l: LedgerModel,
    g: feed::Game,
    teams: Seq<model::Team>,
    om: OutcomeMap,
) -> Result<LedgerModel, FatalError> {
    if !spec_is_regular(g) {
        Ok(l)
    } else if has_game_id(l.games, g.id) {
        Ok(l)
    } else {
        match spec_translate(g, teams, om, l.next_score_id) {
            Err(e) => Err(e),
            Ok((row, None)) => Ok(
                (LedgerModel {
                    games: l.games.push(row),
                    scores: l.scores,
                    next_score_id: l.next_score_id,
                }),
            ),
            Ok((row, Some(s))) => Ok(
                (LedgerModel {
                    games: l.games.push(row),
                    scores: l.scores.push(s),
                    next_score_id: l.next_score_id + 1,
                }),
            ),
        }
    }
}

/// A whole reconciliation pass over the batch's games in fetch order: the
/// resulting ledger, or the first record's fatal condition, in which case
/// no mutation is applied at all.
pub open spec fn spec_run(
    l: LedgerModel,
    gs: Seq<feed::Game>,
    teams: Seq<model::Team>,
    om: OutcomeMap,
) -> Result<LedgerModel, FatalError>
    decreases gs.len(),
{
    if gs.len() == 0 {
        Ok(l)
    } else {
        match spec_step(l, gs[0], teams, om) {
            Err(e) => Err(e),
            Ok(l2) => spec_run(l2, gs.skip(1), teams, om),
        }
    }
}

/// A batch's games in processing order: each team's schedule in turn, each
/// schedule's games in fetch order.
pub open spec fn spec_flatten(schedules: Seq<(i32, feed::TeamSchedule)>) -> Seq<feed::Game>
    decreases schedules.len(),
{
    if schedules.len() == 0 {
        Seq::<feed::Game>::empty()
    } else {
        schedules[0].1.games@ + spec_flatten(schedules.skip(1))
    }
}

/// The ledger after appending a pass's mutations: the new rows follow the
/// old ones and the score generator advances once per new score.
pub open spec fn spec_applied(
    l: LedgerModel,
    new_games: Seq<store::Game>,
    new_scores: Seq<store::Score>,
) -> LedgerModel {
    LedgerModel {
        games: l.games + new_games,
        scores: l.scores + new_scores,
        next_score_id: l.next_score_id + new_scores.len(),
    }
}

/// Looks an outcome-type row up by name, returning its position.
fn find_lpt(types: &Vec<store::LastPeriodType>, name: &str) -> (r: Option<usize>)
    ensures
        (match r {
            Some(i) => i < types@.len() && spec_find_lpt(types@, name@) == Some(types@[i as int]),
            None => spec_find_lpt(types@, name@) is None,
        }),
{
    proof {
        assert(types@.skip(0) =~= types@);
    }
    let mut i: usize = 0;
    while i < types.len()
        invariant
            0 <= i <= types.len(),
            spec_find_lpt(types@, name@) == spec_find_lpt(types@.skip(i as int), name@),
        decreases types.len() - i,
    {
        proof {
            assert(types@.skip(i as int)[0] == types@[i as int]);
            assert(types@.skip(i as int).skip(1) =~= types@.skip(i as int + 1));
        }
        if types[i].name == name.to_owned() {
            return Some(i);
        }
        i = i + 1;
    }
    proof {
        assert(types@.skip(types.len() as int) =~= Seq::<store::LastPeriodType>::empty());
    }
    None
}

/// Builds the feed-code mapping from the reference data's outcome-type
/// table; fatal if a canonical name is missing, since the reference data is
/// then stale relative to the feed.
pub fn build_outcome_map(types: &Vec<store::LastPeriodType>) -> (r: Result<OutcomeMap, FatalError>)
    ensures
        r == spec_build_outcome_map(types@),
{
    let regulation_id = match find_lpt(types, "Regulation") {
        None => {
            return Err(FatalError::MissingOutcomeType(feed::PeriodType::REG));
        },
        Some(i) => types[i].id,
    };
    let shootout_id = match find_lpt(types, "Shootout") {
        None => {
            return Err(FatalError::MissingOutcomeType(feed::PeriodType::SO));
        },
        Some(i) => types[i].id,
    };
    let overtime_id = match find_lpt(types, "Overtime") {
        None => {
            return Err(FatalError::MissingOutcomeType(feed::PeriodType::OT));
        },
        Some(i) => types[i].id,
    };
    Ok(OutcomeMap { regulation_id, overtime_id, shootout_id })
}

/// Membership in a concatenation is membership in either part.
pub proof fn lemma_has_game_id_concat(a: Seq<store::Game>, b: Seq<store::Game>, id: i32)
    ensures
        has_game_id(a + b, id) == (has_game_id(a, id) || has_game_id(b, id)),
{
    if has_game_id(a, id) {
        let i = choose|i: int| 0 <= i < a.len() && a[i].api_id == id;
        assert((a + b)[i].api_id == id);
    } else if has_game_id(b, id) {
        let i = choose|i: int| 0 <= i < b.len() && b[i].api_id == id;
        assert((a + b)[a.len() + i].api_id == id);
    } else if has_game_id(a + b, id) {
        let i = choose|i: int| 0 <= i < (a + b).len() && (a + b)[i].api_id == id;
        if i < a.len() {
            assert(a[i].api_id == id);
        } else {
            assert(b[i - a.len()].api_id == id);
        }
    }
}

/// Produces the mutations of one reconciliation pass of `batch` against
/// `ledger` without applying them: exactly the new games and scores that
/// the fold [`spec_run`] appends, or its fatal condition, in which case
/// nothing is to be applied. The score-reference generator must have room
/// for the batch, one reference per game at most.
pub fn reconcile(
    ledger: &Ledger,
    batch: &feed::ApiResponse,
    teams: &Vec<model::Team>,
    outcomes: &OutcomeMap,
) -> (r: Result<Mutations, FatalError>)
    requires
        ledger@.next_score_id + spec_flatten(batch.schedules@).len() <= i64::MAX,
    ensures
        (match spec_run(ledger@, spec_flatten(batch.schedules@), teams@, *outcomes) {
            Ok(l2) => r matches Ok(m) && spec_applied(ledger@, m.new_games@, m.new_scores@) == l2,
            Err(e) => r == Err::<Mutations, FatalError>(e),
        }),
{
    let ghost l0 = ledger@;
    let ghost full = spec_flatten(batch.schedules@);
    let mut new_games: Vec<store::Game> = Vec::new();
    let mut new_scores: Vec<store::Score> = Vec::new();
    let mut next_id: i64 = ledger.next_score_id;
    proof {
        assert(batch.schedules@.skip(0) =~= batch.schedules@);
        assert(l0.games + new_games@ =~= l0.games);
        assert(l0.scores + new_scores@ =~= l0.scores);
    }
    let mut si: usize = 0;
    while si < batch.schedules.len()
        invariant
            0 <= si <= batch.schedules.len(),
            l0 == ledger@,
            full == spec_flatten(batch.schedules@),
            next_id as int == l0.next_score_id + new_scores@.len(),
            next_id as int + spec_flatten(batch.schedules@.skip(si as int)).len() <= i64::MAX,
            spec_run(l0, full, teams@, *outcomes) == spec_run(
                spec_applied(l0, new_games@, new_scores@),
                spec_flatten(batch.schedules@.skip(si as int)),
                teams@,
                *outcomes,
            ),
        decreases batch.schedules.len() - si,
    {
        proof {
            assert(batch.schedules@.skip(si as int)[0] == batch.schedules@[si as int]);
            assert(batch.schedules@.skip(si as int).skip(1) =~= batch.schedules@.skip(si as int + 1));
        }
        let schedule = &batch.schedules[si].1;
        proof {
            assert(schedule.games@.skip(0) =~= schedule.games@);
            assert(spec_flatten(batch.schedules@.skip(si as int)) == batch.schedules@[si as int].1.games@
                + spec_flatten(batch.schedules@.skip(si as int + 1)));
        }
        let mut gi: usize = 0;
        while gi < schedule.games.len()
            invariant
                0 <= gi <= schedule.games.len(),
                0 <= si < batch.schedules.len(),
                l0 == ledger@,
                full == spec_flatten(batch.schedules@),
                schedule == &batch.schedules@[si as int].1,
                next_id as int == l0.next_score_id + new_scores@.len(),
                next_id as int + schedule.games@.skip(gi as int).len() + spec_flatten(
                    batch.schedules@.skip(si as int + 1),
                ).len() <= i64::MAX,
                spec_run(l0, full, teams@, *outcomes) == spec_run(
                    spec_applied(l0, new_games@, new_scores@),
                    schedule.games@.skip(gi as int) + spec_flatten(
                        batch.schedules@.skip(si as int + 1),
                    ),
                    teams@,
                    *outcomes,
                ),
            decreases schedule.games.len() - gi,
        {
            let ghost cur = spec_applied(l0, new_games@, new_scores@);
            let ghost rest = spec_flatten(batch.schedules@.skip(si as int + 1));
            let ghost todo = schedule.games@.skip(gi as int) + rest;
            let g = &schedule.games[gi];
            proof {
                assert(todo[0] == schedule.games@[gi as int]);
                assert(todo.skip(1) =~= schedule.games@.skip(gi as int + 1) + rest);
            }
            if g.is_regular_season() {
                let in_ledger = ledger.contains_game(g.id);
                let in_new = store::contains_game_row(&new_games, g.id);
                proof {
                    lemma_has_game_id_concat(l0.games, new_games@, g.id);
                }
                if !in_ledger && !in_new {
                    match &g.game_outcome {
                        None => {
                            let home_idx = match model::find_team_by_api(teams, g.home_team.id) {
                                None => {
                                    return Err(FatalError::UnknownTeam(g.home_team.id));
                                },
                                Some(i) => i,
                            };
                            let away_idx = match model::find_team_by_api(teams, g.away_team.id) {
                                None => {
                                    return Err(FatalError::UnknownTeam(g.away_team.id));
                                },
                                Some(i) => i,
                            };
                            let ghost games_before = new_games@;
                            new_games.push(
                                store::Game {
                                    api_id: g.id,
                                    home_team_id: teams[home_idx].db_id,
                                    away_team_id: teams[away_idx].db_id,
                                    score_id: None,
                                },
                            );
                            proof {
                                assert(l0.games + new_games@ =~= (l0.games
                                    + games_before).push(new_games@.last()));
                            }
                        },
                        Some(outcome) => {
                            let home_score = match g.home_team.score {
                                None => {
                                    return Err(FatalError::MissingScore(g.id));
                                },
                                Some(s) => s,
                            };
                            let away_score = match g.away_team.score {
                                None => {
                                    return Err(FatalError::MissingScore(g.id));
                                },
                                Some(s) => s,
                            };
                            let pt = match feed::PeriodType::from_code(&outcome.last_period_type) {
                                None => {
                                    return Err(FatalError::UnknownOutcomeCode(g.id));
                                },
                                Some(pt) => pt,
                            };
                            let home_idx = match model::find_team_by_api(teams, g.home_team.id) {
                                None => {
                                    return Err(FatalError::UnknownTeam(g.home_team.id));
                                },
                                Some(i) => i,
                            };
                            let away_idx = match model::find_team_by_api(teams, g.away_team.id) {
                                None => {
                                    return Err(FatalError::UnknownTeam(g.away_team.id));
                                },
                                Some(i) => i,
                            };
                            let lpt_id = match pt {
                                feed::PeriodType::REG => outcomes.regulation_id,
                                feed::PeriodType::OT => outcomes.overtime_id,
                                feed::PeriodType::SO => outcomes.shootout_id,
                            };
                            let ghost games_before = new_games@;
                            let ghost scores_before = new_scores@;
                            new_scores.push(
                                store::Score {
                                    id: next_id,
                                    home: home_score,
                                    away: away_score,
                                    last_period_type_id: lpt_id,
                                },
                            );
                            new_games.push(
                                store::Game {
                                    api_id: g.id,
                                    home_team_id: teams[home_idx].db_id,
                                    away_team_id: teams[away_idx].db_id,
                                    score_id: Some(next_id),
                                },
                            );
                            next_id = next_id + 1;
                            proof {
                                assert(l0.games + new_games@ =~= (l0.games
                                    + games_before).push(new_games@.last()));
                                assert(l0.scores + new_scores@ =~= (l0.scores
                                    + scores_before).push(new_scores@.last()));
                            }
                        },
                    }
                }
            }
            gi = gi + 1;
        }
        proof {
            assert(schedule.games@.skip(schedule.games@.len() as int) =~= Seq::<feed::Game>::empty());
            assert(Seq::<feed::Game>::empty() + spec_flatten(batch.schedules@.skip(si as int + 1))
                =~= spec_flatten(batch.schedules@.skip(si as int + 1)));
        }
        si = si + 1;
    }
    proof {
        assert(batch.schedules@.skip(batch.schedules.len() as int) =~= Seq::<
            (i32, feed::TeamSchedule),
        >::empty());
    }
    Ok(Mutations { new_games, new_scores })
}

/// A translated game row carries the feed game's external identifier, and
/// its score reference is exactly the generated score's identifier.
pub proof fn lemma_translate_row(
    g: feed::Game,
    teams: Seq<model::Team>,
    om: OutcomeMap,
    next_score_id: int,
)
    ensures
        (match spec_translate(g, teams, om, next_score_id) {
            Ok((row, sco)) => row.api_id == g.id && (match sco {
                Some(s) => row.score_id == Some(s.id) && s.id == next_score_id as i64,
                None => row.score_id is None,
            }),
            Err(_) => true,
        }),
{
}

/// One reconciliation step preserves the ledger's invariants, advances the
/// score generator by at most one, and only appends.
pub proof fn lemma_step_wf(l: LedgerModel, g: feed::Game, teams: Seq<model::Team>, om: OutcomeMap)
    requires
        ledger_wf(l),
        l.next_score_id <= i64::MAX,
    ensures
        (match spec_step(l, g, teams, om) {
            Ok(l2) => ledger_wf(l2) && l.next_score_id <= l2.next_score_id <= l.next_score_id + 1,
            Err(_) => true,
        }),
{
    lemma_translate_row(g, teams, om, l.next_score_id);
    if spec_is_regular(g) && !has_game_id(l.games, g.id) {
        match spec_translate(g, teams, om, l.next_score_id) {
            Err(_) => {},
            Ok((row, sco)) => {
                let games2 = l.games.push(row);
                assert forall|i: int, j: int| 0 <= i < j < games2.len() implies (
                #[trigger] games2[i]).api_id != (#[trigger] games2[j]).api_id by {
                    if j < l.games.len() as int {
                    } else {
                        assert(games2[j] == row);
                        assert(!has_game_id(l.games, g.id));
                        assert(games2[i] == l.games[i]);
                    }
                }
                match sco {
                    None => {
                        assert forall|i: int|
                            0 <= i < games2.len() implies match (#[trigger] games2[i]).score_id {
                            Some(sid) => has_score_id(l.scores, sid),
                            None => true,
                        } by {
                            if i < l.games.len() as int {
                                assert(games2[i] == l.games[i]);
                            } else {
                                assert(games2[i] == row);
                            }
                        }
                    },
                    Some(s) => {
                        let scores2 = l.scores.push(s);
                        assert(s.id == l.next_score_id as i64);
                        assert(s.id as int == l.next_score_id);
                        assert forall|i: int, j: int| 0 <= i < j < scores2.len() implies (
                        #[trigger] scores2[i]).id != (#[trigger] scores2[j]).id by {
                            if j < l.scores.len() as int {
                            } else {
                                assert(scores2[j] == s);
                                assert(scores2[i] == l.scores[i]);
                                assert(l.scores[i].id < l.next_score_id);
                            }
                        }
                        assert forall|i: int|
                            0 <= i < games2.len() implies match (#[trigger] games2[i]).score_id {
                            Some(sid) => has_score_id(scores2, sid),
                            None => true,
                        } by {
                            if i < l.games.len() as int {
                                assert(games2[i] == l.games[i]);
                                match l.games[i].score_id {
                                    Some(sid) => {
                                        assert(has_score_id(l.scores, sid));
                                        let k = choose|k: int|
                                            0 <= k < l.scores.len() && l.scores[k].id == sid;
                                        assert(scores2[k].id == sid);
                                    },
                                    None => {},
                                }
                            } else {
                                assert(games2[i] == row);
                                assert(scores2[l.scores.len() as int].id == s.id);
                            }
                        }
                    },
                }
            },
        }
    }
}

/// A whole successful pass preserves the ledger's invariants and advances
/// the score generator by at most one per batch game.
pub proof fn lemma_run_wf(l: LedgerModel, gs: Seq<feed::Game>, teams: Seq<model::Team>, om: OutcomeMap)
    requires
        ledger_wf(l),
        l.next_score_id + gs.len() <= i64::MAX,
    ensures
        (match spec_run(l, gs, teams, om) {
            Ok(l2) => ledger_wf(l2) && l.next_score_id <= l2.next_score_id <= l.next_score_id
                + gs.len(),
            Err(_) => true,
        }),
    decreases gs.len(),
{
    if gs.len() == 0 {
    } else {
        lemma_step_wf(l, gs[0], teams, om);
        match spec_step(l, gs[0], teams, om) {
            Err(_) => {},
            Ok(l1) => {
                lemma_run_wf(l1, gs.skip(1), teams, om);
            },
        }
    }
}

/// Exactly the regular-season games of the batch join the ledger: after a
/// successful pass, an external identifier is recorded if and only if it
/// was recorded before or some regular-season record of the batch carries
/// it.
pub proof fn lemma_run_membership(
    l: LedgerModel,
    gs: Seq<feed::Game>,
    teams: Seq<model::Team>,
    om: OutcomeMap,
    id: i32,
)
    ensures
        (match spec_run(l, gs, teams, om) {
            Ok(l2) => has_game_id(l2.games, id) <==> (has_game_id(l.games, id) || spec_batch_has(
                gs,
                id,
            )),
            Err(_) => true,
        }),
    decreases gs.len(),
{
    if gs.len() == 0 {
    } else {
        let g = gs[0];
        lemma_translate_row(g, teams, om, l.next_score_id);
        match spec_step(l, g, teams, om) {
            Err(_) => {},
            Ok(l1) => {
                lemma_run_membership(l1, gs.skip(1), teams, om, id);
                match spec_run(l1, gs.skip(1), teams, om) {
                    Err(_) => {},
                    Ok(l2) => {
                        assert(has_game_id(l1.games, id) <==> (has_game_id(l.games, id) || (
                        spec_is_regular(g) && g.id == id))) by {
                            if !spec_is_regular(g) || has_game_id(l.games, g.id) {
                                if spec_is_regular(g) && g.id == id {
                                    assert(has_game_id(l.games, id));
                                }
                            } else {
                                let n = l.games.len() as int;
                                if has_game_id(l1.games, id) {
                                    let i = choose|i: int|
                                        0 <= i < l1.games.len() && l1.games[i].api_id == id;
                                    if i < n {
                                        assert(l.games[i].api_id == id);
                                    } else {
                                        assert(l1.games[i].api_id == g.id);
                                    }
                                }
                                if has_game_id(l.games, id) {
                                    let i = choose|i: int|
                                        0 <= i < l.games.len() && l.games[i].api_id == id;
                                    assert(l1.games[i].api_id == id);
                                }
                                if g.id == id {
                                    assert(l1.games[n].api_id == id);
                                }
                            }
                        };
                        assert(spec_batch_has(gs, id) <==> ((spec_is_regular(g) && g.id == id)
                            || spec_batch_has(gs.skip(1), id))) by {
                            if spec_batch_has(gs, id) {
                                let j = choose|j: int|
                                    0 <= j < gs.len() && spec_is_regular(gs[j]) && (
                                    #[trigger] gs[j]).id == id;
                                if j == 0 {
                                } else {
                                    assert(gs.skip(1)[j - 1] == gs[j]);
                                    assert(spec_batch_has(gs.skip(1), id));
                                }
                            }
                            if spec_batch_has(gs.skip(1), id) {
                                let j = choose|j: int|
                                    0 <= j < gs.skip(1).len() && spec_is_regular(gs.skip(1)[j]) && (
                                    #[trigger] gs.skip(1)[j]).id == id;
                                assert(gs[j + 1] == gs.skip(1)[j]);
                                assert(spec_batch_has(gs, id));
                            }
                            if spec_is_regular(g) && g.id == id {
                                assert(spec_is_regular(gs[0]) && gs[0].id == id);
                                assert(spec_batch_has(gs, id));
                            }
                        };
                    },
                }
            },
        }
    }
}

/// A pass over a batch whose every regular-season game is already recorded
/// changes nothing and cannot fail.
pub proof fn lemma_run_skip_all(
    l: LedgerModel,
    gs: Seq<feed::Game>,
    teams: Seq<model::Team>,
    om: OutcomeMap,
)
    requires
        forall|j: int|
            0 <= j < gs.len() && spec_is_regular(#[trigger] gs[j]) ==> has_game_id(
                l.games,
                gs[j].id,
            ),
    ensures
        spec_run(l, gs, teams, om) == Ok::<LedgerModel, FatalError>(l),
    decreases gs.len(),
{
    if gs.len() == 0 {
    } else {
        assert(spec_step(l, gs[0], teams, om) == Ok::<LedgerModel, FatalError>(l));
        assert forall|j: int|
            0 <= j < gs.skip(1).len() && spec_is_regular(#[trigger] gs.skip(1)[j]) implies has_game_id(
            l.games,
            gs.skip(1)[j].id,
        ) by {
            assert(gs.skip(1)[j] == gs[j + 1]);
        }
        lemma_run_skip_all(l, gs.skip(1), teams, om);
    }
}

/// Reconciliation is idempotent: after a successful pass, running the very
/// same batch again succeeds and leaves the ledger exactly as it is, so
/// re-fetching the same or overlapping data is a no-op for known games.
pub proof fn lemma_reconcile_idempotent(
    l: LedgerModel,
    gs: Seq<feed::Game>,
    teams: Seq<model::Team>,
    om: OutcomeMap,
    l2: LedgerModel,
)
    requires
        spec_run(l, gs, teams, om) == Ok::<LedgerModel, FatalError>(l2),
    ensures
        spec_run(l2, gs, teams, om) == Ok::<LedgerModel, FatalError>(l2),
{
    assert forall|j: int|
        0 <= j < gs.len() && spec_is_regular(#[trigger] gs[j]) implies has_game_id(
        l2.games,
        gs[j].id,
    ) by {
        lemma_run_membership(l, gs, teams, om, gs[j].id);
        assert(spec_batch_has(gs, gs[j].id));
    }
    lemma_run_skip_all(l2, gs, teams, om);
}

/// Deduplication within a batch: however often a regular-season external
/// identifier repeats across the batch's schedules, a successful pass over
/// a well-formed ledger leaves exactly one game row carrying it.
pub proof fn lemma_dedup_within_batch(
    l: LedgerModel,
    gs: Seq<feed::Game>,
    teams: Seq<model::Team>,
    om: OutcomeMap,
    l2: LedgerModel,
    id: i32,
)
    requires
        ledger_wf(l),
        l.next_score_id + gs.len() <= i64::MAX,
        spec_run(l, gs, teams, om) == Ok::<LedgerModel, FatalError>(l2),
        spec_batch_has(gs, id),
    ensures
        exists|i: int| 0 <= i < l2.games.len() && (#[trigger] l2.games[i]).api_id == id,
        forall|i: int, j: int|
            0 <= i < j < l2.games.len() ==> !((#[trigger] l2.games[i]).api_id == id && (
            #[trigger] l2.games[j]).api_id == id),
{
    lemma_run_membership(l, gs, teams, om, id);
    lemma_run_wf(l, gs, teams, om);
    assert(has_game_id(l2.games, id));
}

/// The category filter: an external identifier that the batch mentions only
/// outside the regular season never joins the ledger.
pub proof fn lemma_category_filter(
    l: LedgerModel,
    gs: Seq<feed::Game>,
    teams: Seq<model::Team>,
    om: OutcomeMap,
    l2: LedgerModel,
    id: i32,
)
    requires
        spec_run(l, gs, teams, om) == Ok::<LedgerModel, FatalError>(l2),
        !has_game_id(l.games, id),
        forall|j: int| 0 <= j < gs.len() && (#[trigger] gs[j]).id == id ==> !spec_is_regular(gs[j]),
    ensures
        !has_game_id(l2.games, id),
{
    lemma_run_membership(l, gs, teams, om, id);
    if spec_batch_has(gs, id) {
        let j = choose|j: int|
            0 <= j < gs.len() && spec_is_regular(gs[j]) && (#[trigger] gs[j]).id == id;
        assert(!spec_is_regular(gs[j]));
    }
}

/// Whether some regular-season record of the batch carries the external
/// identifier `id`.
pub open spec fn spec_batch_has(gs: Seq<feed::Game>, id: i32) -> bool {
    exists|j: int| 0 <= j < gs.len() && spec_is_regular(gs[j]) && (#[trigger] gs[j]).id == id
}

/// Appends a pass's mutations to the ledger, advancing the score generator
/// once per new score.
pub fn apply(ledger: &mut Ledger, m: &Mutations)
    requires
        old(ledger)@.next_score_id + m.new_scores@.len() <= i64::MAX,
    ensures
        final(ledger)@ == spec_applied(old(ledger)@, m.new_games@, m.new_scores@),
{
    let ghost l0 = old(ledger)@;
    let mut i: usize = 0;
    while i < m.new_games.len()
        invariant
            0 <= i <= m.new_games.len(),
            ledger@.games == l0.games + m.new_games@.take(i as int),
            ledger@.scores == l0.scores,
            ledger@.next_score_id == l0.next_score_id,
        decreases m.new_games.len() - i,
    {
        proof {
            assert((l0.games + m.new_games@.take(i as int)).push(m.new_games@[i as int]) =~= l0.games
                + m.new_games@.take(i as int + 1));
        }
        ledger.games.push(m.new_games[i]);
        i = i + 1;
    }
    let mut j: usize = 0;
    while j < m.new_scores.len()
        invariant
            0 <= j <= m.new_scores.len(),
            l0.next_score_id + m.new_scores@.len() <= i64::MAX,
            ledger@.games == l0.games + m.new_games@.take(m.new_games@.len() as int),
            ledger@.scores == l0.scores + m.new_scores@.take(j as int),
            ledger@.next_score_id == l0.next_score_id + j,
        decreases m.new_scores.len() - j,
    {
        proof {
            assert((l0.scores + m.new_scores@.take(j as int)).push(m.new_scores@[j as int])
                =~= l0.scores + m.new_scores@.take(j as int + 1));
        }
        ledger.scores.push(m.new_scores[j]);
        ledger.next_score_id = ledger.next_score_id + 1;
        j = j + 1;
    }
    proof {
        assert(m.new_games@.take(m.new_games@.len() as int) =~= m.new_games@);
        assert(m.new_scores@.take(m.new_scores@.len() as int) =~= m.new_scores@);
    }
}

/// One whole reconciliation pass, applied in place: on success the ledger
/// equals the fold's result and keeps its invariants; on a fatal condition
/// it is untouched, so no partial pass is ever visible.
pub fn reconcile_apply(
    ledger: &mut Ledger,
    batch: &feed::ApiResponse,
    teams: &Vec<model::Team>,
    outcomes: &OutcomeMap,
) -> (r: Result<(), FatalError>)
    requires
        old(ledger).wf(),
        old(ledger)@.next_score_id + spec_flatten(batch.schedules@).len() <= i64::MAX,
    ensures
        (match spec_run(old(ledger)@, spec_flatten(batch.schedules@), teams@, *outcomes) {
            Ok(l2) => r == Ok::<(), FatalError>(()) && final(ledger)@ == l2 && final(ledger).wf(),
            Err(e) => r == Err::<(), FatalError>(e) && final(ledger)@ == old(ledger)@,
        }),
{
    let m = match reconcile(&*ledger, batch, teams, outcomes) {
        Err(e) => {
            return Err(e);
        },
        Ok(m) => m,
    };
    proof {
        lemma_run_wf(ledger@, spec_flatten(batch.schedules@), teams@, *outcomes);
    }
    apply(ledger, &m);
    Ok(())
}

} // verus!
