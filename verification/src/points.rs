//! The points deriver: classifies each completed game's outcome into a
//! points value under the league's rules and produces, per team, an ordered
//! cumulative series suitable for plotting.
//!
//! Games come from two paths that must agree: read back from the ledger
//! (internal identifiers) or taken straight from a fetched batch (external
//! identifiers). A game without a final score contributes no point but
//! still consumes its ordinal position in the series, so the index axis
//! reflects schedule positions. An outcome type outside the league's three
//! is a fatal condition: derivation aborts rather than defaulting a value.

use crate::errors::FatalError;
use crate::feed;
use crate::model;
use crate::reconcile::{
    spec_build_outcome_map, spec_find_lpt, spec_is_regular, spec_translate, OutcomeMap,
};
use crate::store;
use crate::store::{spec_find_score, spec_team_games, Ledger};
use vstd::math::abs;
use vstd::prelude::*;

verus! {

/// One point of a team's cumulative series: the game's ordinal position in
/// the team's schedule (the origin is 0) and the running total of points
/// above the baseline after that game.
#[derive(Copy, Clone, Debug, PartialEq, Eq, Structural)]
pub struct SeriesPoint {
    pub index: usize,
    pub value: i64,
}

/// What deriving one fetched game for one team yields: the team's points
/// (absent while the game has no outcome), or the record's fatal condition
/// — a missing tally or an outcome code outside the feed's vocabulary. The
/// team's side is found by its external identifier.
pub open spec fn spec_api_to_crate(g: feed::Game, t: model::Team) -> Result<
    model::Game,
    FatalError,
> {
    match g.game_outcome {
        None => Ok((model::Game { points: None })),
        Some(o) => match g.home_team.score {
            None => Err(FatalError::MissingScore(g.id)),
            Some(hs) => match g.away_team.score {
                None => Err(FatalError::MissingScore(g.id)),
                Some(aws) => match feed::spec_period_type_of(o.last_period_type@) {
                    None => Err(FatalError::UnknownOutcomeCode(g.id)),
                    Some(pt) => {
                        let mine = if g.home_team.id == t.api_id {
                            hs
                        } else {
                            aws
                        };
                        let theirs = if g.home_team.id == t.api_id {
                            aws
                        } else {
                            hs
                        };
                        Ok(
                            (model::Game {
                                points: Some(
                                    model::spec_points(mine, theirs, model::spec_kind_of_code(pt)),
                                ),
                            }),
                        )
                    },
                },
            },
        },
    }
}

/// What deriving one stored game for one team yields, given the game's
/// resolved score and outcome-type rows: the team's points, or the fatal
/// condition that the stored outcome-type name is outside the league's
/// three. The team's side is found by its internal identifier.
pub open spec fn spec_db_to_crate(
    row: store::Game,
    game_outcome: Option<(store::Score, store::LastPeriodType)>,
    t: model::Team,
) -> Result<model::Game, FatalError> {
    match game_outcome {
        None => Ok((model::Game { points: None })),
        Some((s, lpt)) => match model::spec_outcome_of_name(lpt.name@) {
            None => Err(FatalError::UnknownOutcomeName(lpt.id)),
            Some(outcome) => {
                let mine = if row.home_team_id == t.db_id {
                    s.home
                } else {
                    s.away
                };
                let theirs = if row.home_team_id == t.db_id {
                    s.away
                } else {
                    s.home
                };
                Ok((model::Game { points: Some(model::spec_points(mine, theirs, outcome)) }))
            },
        },
    }
}

impl feed::Game {
    /// Derives this fetched game's points for `this_team`; fatal on a
    /// completed game missing a tally or carrying an unknown outcome code.
    pub fn api_to_crate(&self, this_team: &model::Team) -> (r: Result<model::Game, FatalError>)
        ensures
            r == spec_api_to_crate(*self, *this_team),
    {
        let o = match &self.game_outcome {
            None => {
                return Ok(model::Game { points: None });
            },
            Some(o) => o,
        };
        let hs = match self.home_team.score {
            None => {
                return Err(FatalError::MissingScore(self.id));
            },
            Some(s) => s,
        };
        let aws = match self.away_team.score {
            None => {
                return Err(FatalError::MissingScore(self.id));
            },
            Some(s) => s,
        };
        let pt = match feed::PeriodType::from_code(&o.last_period_type) {
            None => {
                return Err(FatalError::UnknownOutcomeCode(self.id));
            },
            Some(p) => p,
        };
        let outcome = match pt {
            feed::PeriodType::REG => model::OutcomeType::Regulation,
            feed::PeriodType::OT => model::OutcomeType::Overtime,
            feed::PeriodType::SO => model::OutcomeType::Shootout,
        };
        let mine = if self.home_team.id == this_team.api_id {
            hs
        } else {
            aws
        };
        let theirs = if self.home_team.id == this_team.api_id {
            aws
        } else {
            hs
        };
        Ok(model::Game { points: Some(points_of(mine, theirs, outcome)) })
    }
}

/// The league's points rule, executably.
fn points_of(mine: i32, theirs: i32, outcome: model::OutcomeType) -> (p: model::Points)
    ensures
        p == model::spec_points(mine, theirs, outcome),
{
    if mine > theirs {
        model::Points::Win
    } else {
        match outcome {
            model::OutcomeType::Regulation => model::Points::RegulationLoss,
            model::OutcomeType::Overtime => model::Points::OvertimeLoss,
            model::OutcomeType::Shootout => model::Points::OvertimeLoss,
        }
    }
}

impl store::Game {
    /// Derives this stored game's points for `this_team` from its resolved
    /// score and outcome-type rows; fatal on an outcome-type name outside
    /// the league's three.
    pub fn db_to_crate(
        self,
        game_outcome: Option<(store::Score, store::LastPeriodType)>,
        this_team: &model::Team,
    ) -> (r: Result<model::Game, FatalError>)
        ensures
            r == spec_db_to_crate(self, game_outcome, *this_team),
    {
        let (s, lpt) = match game_outcome {
            None => {
                return Ok(model::Game { points: None });
            },
            Some(o) => o,
        };
        let outcome = if lpt.name == "Regulation".to_owned() {
            model::OutcomeType::Regulation
        } else if lpt.name == "Overtime".to_owned() {
            model::OutcomeType::Overtime
        } else if lpt.name == "Shootout".to_owned() {
            model::OutcomeType::Shootout
        } else {
            return Err(FatalError::UnknownOutcomeName(lpt.id));
        };
        let mine = if self.home_team_id == this_team.db_id {
            s.home
        } else {
            s.away
        };
        let theirs = if self.home_team_id == this_team.db_id {
            s.away
        } else {
            s.home
        };
        Ok(model::Game { points: Some(points_of(mine, theirs, outcome)) })
    }
}

/// The first outcome-type row carrying the identifier `id`, if any.
pub open spec fn spec_find_lpt_by_id(lpts: Seq<store::LastPeriodType>, id: i32) -> Option<
    store::LastPeriodType,
>
    decreases lpts.len(),
{
    if lpts.len() == 0 {
        None
    } else if lpts[0].id == id {
        Some(lpts[0])
    } else {
        spec_find_lpt_by_id(lpts.skip(1), id)
    }
}

/// Looks an outcome-type row up by identifier, returning its position.
fn find_lpt_by_id(lpts: &Vec<store::LastPeriodType>, id: i32) -> (r: Option<usize>)
    ensures
        (match r {
            Some(i) => i < lpts@.len() && spec_find_lpt_by_id(lpts@, id) == Some(lpts@[i as int]),
            None => spec_find_lpt_by_id(lpts@, id) is None,
        }),
{
    proof {
        assert(lpts@.skip(0) =~= lpts@);
    }
    let mut i: usize = 0;
    while i < lpts.len()
        invariant
            0 <= i <= lpts.len(),
            spec_find_lpt_by_id(lpts@, id) == spec_find_lpt_by_id(lpts@.skip(i as int), id),
        decreases lpts.len() - i,
    {
        proof {
            assert(lpts@.skip(i as int)[0] == lpts@[i as int]);
            assert(lpts@.skip(i as int).skip(1) =~= lpts@.skip(i as int + 1));
        }
        if lpts[i].id == id {
            return Some(i);
        }
        i = i + 1;
    }
    proof {
        assert(lpts@.skip(lpts.len() as int) =~= Seq::<store::LastPeriodType>::empty());
    }
    None
}

/// What reading one stored game back yields: its score resolved through the
/// score table and its outcome type through the reference data, then the
/// points rule. A dangling score reference reads as an unscored game, as
/// the store itself reads it; the ledger's invariants rule it out.
pub open spec fn spec_game_from_row(
    row: store::Game,
    scores: Seq<store::Score>,
    lpts: Seq<store::LastPeriodType>,
    t: model::Team,
) -> Result<model::Game, FatalError> {
    match row.score_id {
        None => spec_db_to_crate(row, None, t),
        Some(sid) => match spec_find_score(scores, sid) {
            None => spec_db_to_crate(row, None, t),
            Some(s) => match spec_find_lpt_by_id(lpts, s.last_period_type_id) {
                None => Err(FatalError::UnknownOutcomeId(s.last_period_type_id)),
                Some(lpt) => spec_db_to_crate(row, Some((s, lpt)), t),
            },
        },
    }
}

/// What reading a whole sequence of stored games back yields: every row in
/// order, or the first failing row's fatal condition.
pub open spec fn spec_rows_to_crate(
    rows: Seq<store::Game>,
    scores: Seq<store::Score>,
    lpts: Seq<store::LastPeriodType>,
    t: model::Team,
) -> Result<Seq<model::Game>, FatalError>
    decreases rows.len(),
{
    if rows.len() == 0 {
        Ok(Seq::<model::Game>::empty())
    } else {
        match spec_game_from_row(rows[0], scores, lpts, t) {
            Err(e) => Err(e),
            Ok(g) => match spec_rows_to_crate(rows.skip(1), scores, lpts, t) {
                Err(e) => Err(e),
                Ok(rest) => Ok(seq![g] + rest),
            },
        }
    }
}

/// A team's stored games read back as per-game points, in recorded order:
/// the ledger path of derivation.
pub fn team_games_to_crate(
    ledger: &Ledger,
    lpts: &Vec<store::LastPeriodType>,
    this_team: &model::Team,
) -> (r: Result<Vec<model::Game>, FatalError>)
    ensures
        (match spec_rows_to_crate(
            spec_team_games(ledger@.games, this_team.db_id),
            ledger@.scores,
            lpts@,
            *this_team,
        ) {
            Ok(gs) => r matches Ok(v) && v@ == gs,
            Err(e) => r == Err::<Vec<model::Game>, FatalError>(e),
        }),
{
    let rows = ledger.games_for_team(this_team.db_id);
    proof {
        assert(rows@.skip(0) =~= rows@);
    }
    let mut out: Vec<model::Game> = Vec::new();
    let mut i: usize = 0;
    while i < rows.len()
        invariant
            0 <= i <= rows.len(),
            rows@ == spec_team_games(ledger@.games, this_team.db_id),
            (match spec_rows_to_crate(rows@, ledger@.scores, lpts@, *this_team) {
                Ok(gs) => spec_rows_to_crate(rows@.skip(i as int), ledger@.scores, lpts@, *this_team)
                    matches Ok(rest) && gs == out@ + rest,
                Err(e) => spec_rows_to_crate(rows@.skip(i as int), ledger@.scores, lpts@, *this_team)
                    == Err::<Seq<model::Game>, FatalError>(e),
            }),
        decreases rows.len() - i,
    {
        proof {
            assert(rows@.skip(i as int)[0] == rows@[i as int]);
            assert(rows@.skip(i as int).skip(1) =~= rows@.skip(i as int + 1));
        }
        let row = rows[i];
        let g: model::Game = match row.score_id {
            None => model::Game { points: None },
            Some(sid) => match ledger.find_score(sid) {
                None => model::Game { points: None },
                Some(s) => {
                    let li = match find_lpt_by_id(lpts, s.last_period_type_id) {
                        None => {
                            return Err(FatalError::UnknownOutcomeId(s.last_period_type_id));
                        },
                        Some(li) => li,
                    };
                    let lpt = store::LastPeriodType { id: lpts[li].id, name: lpts[li].name.clone() };
                    proof {
                        assert(lpt == lpts@[li as int]);
                    }
                    match row.db_to_crate(Some((s, lpt)), this_team) {
                        Err(e) => {
                            return Err(e);
                        },
                        Ok(g) => g,
                    }
                },
            },
        };
        let ghost out_before = out@;
        out.push(g);
        proof {
            match spec_rows_to_crate(rows@.skip(i as int + 1), ledger@.scores, lpts@, *this_team) {
                Ok(rest2) => {
                    assert(out_before + (seq![g] + rest2) =~= out@ + rest2);
                },
                Err(_) => {},
            }
        }
        i = i + 1;
    }
    proof {
        assert(rows@.skip(rows.len() as int) =~= Seq::<store::Game>::empty());
        if spec_rows_to_crate(rows@, ledger@.scores, lpts@, *this_team) matches Ok(gs) {
            assert(out@ + Seq::<model::Game>::empty() =~= out@);
        }
    }
    Ok(out)
}

/// What the ledger path yields for one team of the reference table.
pub open spec fn spec_ledger_entry(
    l: store::LedgerModel,
    lpts: Seq<store::LastPeriodType>,
    t: model::Team,
) -> Result<Seq<model::Game>, FatalError> {
    spec_rows_to_crate(spec_team_games(l.games, t.db_id), l.scores, lpts, t)
}

/// Bulk derivation from the ledger: per team of the reference table, keyed
/// by the team's external identifier, that team's per-game points in
/// recorded order; or the first team's fatal condition.
pub fn all_games(
    ledger: &Ledger,
    lpts: &Vec<store::LastPeriodType>,
    teams: &Vec<model::Team>,
) -> (r: Result<Vec<(i32, Vec<model::Game>)>, FatalError>)
    ensures
        (match r {
            Ok(v) => v@.len() == teams@.len() && forall|i: int|
                0 <= i < teams@.len() ==> (#[trigger] v@[i]).0 == teams@[i].api_id
                    && spec_ledger_entry(ledger@, lpts@, teams@[i]) == Ok::<
                    Seq<model::Game>,
                    FatalError,
                >(v@[i].1@),
            Err(e) => exists|i: int|
                0 <= i < teams@.len() && spec_ledger_entry(ledger@, lpts@, #[trigger] teams@[i])
                    == Err::<Seq<model::Game>, FatalError>(e) && forall|j: int|
                    0 <= j < i ==> spec_ledger_entry(ledger@, lpts@, #[trigger] teams@[j]) is Ok,
        }),
{
    let mut out: Vec<(i32, Vec<model::Game>)> = Vec::new();
    let mut i: usize = 0;
    while i < teams.len()
        invariant
            0 <= i <= teams.len(),
            out@.len() == i,
            forall|j: int|
                0 <= j < i as int ==> (#[trigger] out@[j]).0 == teams@[j].api_id
                    && spec_ledger_entry(ledger@, lpts@, teams@[j]) == Ok::<
                    Seq<model::Game>,
                    FatalError,
                >(out@[j].1@),
        decreases teams.len() - i,
    {
        match team_games_to_crate(ledger, lpts, &teams[i]) {
            Err(e) => {
                proof {
                    assert(spec_ledger_entry(ledger@, lpts@, teams@[i as int]) == Err::<
                        Seq<model::Game>,
                        FatalError,
                    >(e));
                    assert forall|j: int|
                        0 <= j < i as int implies spec_ledger_entry(
                        ledger@,
                        lpts@,
                        #[trigger] teams@[j],
                    ) is Ok by {
                        assert((out@[j]).0 == teams@[j].api_id);
                    }
                }
                return Err(e);
            },
            Ok(games) => {
                out.push((teams[i].api_id, games));
            },
        }
        i = i + 1;
    }
    Ok(out)
}

/// What deriving one team's fetched schedule yields: the points of its
/// regular-season games in fetch order — other categories are skipped — or
/// the first failing record's fatal condition.
pub open spec fn spec_games_from_schedule(games: Seq<feed::Game>, t: model::Team) -> Result<
    Seq<model::Game>,
    FatalError,
>
    decreases games.len(),
{
    if games.len() == 0 {
        Ok(Seq::<model::Game>::empty())
    } else if !spec_is_regular(games[0]) {
        spec_games_from_schedule(games.skip(1), t)
    } else {
        match spec_api_to_crate(games[0], t) {
            Err(e) => Err(e),
            Ok(g) => match spec_games_from_schedule(games.skip(1), t) {
                Err(e) => Err(e),
                Ok(rest) => Ok(seq![g] + rest),
            },
        }
    }
}

/// Derives one team's fetched schedule: the fresh-fetch path of derivation,
/// before anything is persisted.
pub fn games_from_schedule(schedule: &feed::TeamSchedule, this_team: &model::Team) -> (r: Result<
    Vec<model::Game>,
    FatalError,
>)
    ensures
        (match spec_games_from_schedule(schedule.games@, *this_team) {
            Ok(gs) => r matches Ok(v) && v@ == gs,
            Err(e) => r == Err::<Vec<model::Game>, FatalError>(e),
        }),
{
    proof {
        assert(schedule.games@.skip(0) =~= schedule.games@);
    }
    let mut out: Vec<model::Game> = Vec::new();
    let mut i: usize = 0;
    while i < schedule.games.len()
        invariant
            0 <= i <= schedule.games.len(),
            (match spec_games_from_schedule(schedule.games@, *this_team) {
                Ok(gs) => spec_games_from_schedule(schedule.games@.skip(i as int), *this_team)
                    matches Ok(rest) && gs == out@ + rest,
                Err(e) => spec_games_from_schedule(schedule.games@.skip(i as int), *this_team)
                    == Err::<Seq<model::Game>, FatalError>(e),
            }),
        decreases schedule.games.len() - i,
    {
        proof {
            assert(schedule.games@.skip(i as int)[0] == schedule.games@[i as int]);
            assert(schedule.games@.skip(i as int).skip(1) =~= schedule.games@.skip(i as int + 1));
        }
        let g = &schedule.games[i];
        if g.is_regular_season() {
            match g.api_to_crate(this_team) {
                Err(e) => {
                    return Err(e);
                },
                Ok(mg) => {
                    let ghost out_before = out@;
                    out.push(mg);
                    proof {
                        match spec_games_from_schedule(
                            schedule.games@.skip(i as int + 1),
                            *this_team,
                        ) {
                            Ok(rest2) => {
                                assert(out_before + (seq![mg] + rest2) =~= out@ + rest2);
                            },
                            Err(_) => {},
                        }
                    }
                },
            }
        }
        i = i + 1;
    }
    proof {
        assert(schedule.games@.skip(schedule.games.len() as int) =~= Seq::<feed::Game>::empty());
        if spec_games_from_schedule(schedule.games@, *this_team) matches Ok(gs) {
            assert(out@ + Seq::<model::Game>::empty() =~= out@);
        }
    }
    Ok(out)
}

/// What one batch entry yields on the fresh-fetch path: the keyed team is
/// resolved through the reference table — fatal if unmapped — and its
/// schedule derived.
pub open spec fn spec_schedule_entry(
    entry: (i32, feed::TeamSchedule),
    teams: Seq<model::Team>,
) -> Result<Seq<model::Game>, FatalError> {
    match model::spec_find_team_by_api(teams, entry.0) {
        None => Err(FatalError::UnknownTeam(entry.0)),
        Some(t) => spec_games_from_schedule(entry.1.games@, t),
    }
}

/// Derives a whole fetched batch before persistence: per schedule, keyed by
/// the team's external identifier, the team's per-game points in fetch
/// order; or the first entry's fatal condition.
pub fn make_app_data(batch: &feed::ApiResponse, teams: &Vec<model::Team>) -> (r: Result<
    Vec<(i32, Vec<model::Game>)>,
    FatalError,
>)
    ensures
        (match r {
            Ok(v) => v@.len() == batch.schedules@.len() && forall|i: int|
                0 <= i < batch.schedules@.len() ==> (#[trigger] v@[i]).0 == batch.schedules@[i].0
                    && spec_schedule_entry(batch.schedules@[i], teams@) == Ok::<
                    Seq<model::Game>,
                    FatalError,
                >(v@[i].1@),
            Err(e) => exists|i: int|
                0 <= i < batch.schedules@.len() && spec_schedule_entry(
                    #[trigger] batch.schedules@[i],
                    teams@,
                ) == Err::<Seq<model::Game>, FatalError>(e) && forall|j: int|
                    0 <= j < i ==> spec_schedule_entry(#[trigger] batch.schedules@[j], teams@) is Ok,
        }),
{
    let mut out: Vec<(i32, Vec<model::Game>)> = Vec::new();
    let mut i: usize = 0;
    while i < batch.schedules.len()
        invariant
            0 <= i <= batch.schedules.len(),
            out@.len() == i,
            forall|j: int|
                0 <= j < i as int ==> (#[trigger] out@[j]).0 == batch.schedules@[j].0
                    && spec_schedule_entry(batch.schedules@[j], teams@) == Ok::<
                    Seq<model::Game>,
                    FatalError,
                >(out@[j].1@),
        decreases batch.schedules.len() - i,
    {
        let key = batch.schedules[i].0;
        let ti = match model::find_team_by_api(teams, key) {
            None => {
                proof {
                    assert(spec_schedule_entry(batch.schedules@[i as int], teams@) == Err::<
                        Seq<model::Game>,
                        FatalError,
                    >(FatalError::UnknownTeam(key)));
                    assert forall|j: int|
                        0 <= j < i as int implies spec_schedule_entry(
                        #[trigger] batch.schedules@[j],
                        teams@,
                    ) is Ok by {
                        assert((out@[j]).0 == batch.schedules@[j].0);
                    }
                }
                return Err(FatalError::UnknownTeam(key));
            },
            Some(ti) => ti,
        };
        match games_from_schedule(&batch.schedules[i].1, &teams[ti]) {
            Err(e) => {
                proof {
                    assert(spec_schedule_entry(batch.schedules@[i as int], teams@) == Err::<
                        Seq<model::Game>,
                        FatalError,
                    >(e));
                    assert forall|j: int|
                        0 <= j < i as int implies spec_schedule_entry(
                        #[trigger] batch.schedules@[j],
                        teams@,
                    ) is Ok by {
                        assert((out@[j]).0 == batch.schedules@[j].0);
                    }
                }
                return Err(e);
            },
            Ok(games) => {
                out.push((key, games));
            },
        }
        i = i + 1;
    }
    Ok(out)
}

/// A row found by name carries that name and is a member of the table.
pub proof fn lemma_find_lpt_member(types: Seq<store::LastPeriodType>, name: Seq<char>)
    ensures
        (match spec_find_lpt(types, name) {
            Some(r) => r.name@ == name && exists|i: int|
                0 <= i < types.len() && #[trigger] types[i] == r,
            None => true,
        }),
    decreases types.len(),
{
    if types.len() > 0 {
        if types[0].name@ == name {
            assert(types[0] == spec_find_lpt(types, name)->Some_0);
        } else {
            lemma_find_lpt_member(types.skip(1), name);
            match spec_find_lpt(types.skip(1), name) {
                Some(r) => {
                    let i = choose|i: int| 0 <= i < types.skip(1).len() && types.skip(1)[i] == r;
                    assert(types[i + 1] == r);
                },
                None => {},
            }
        }
    }
}

/// A found row carries the identifier looked up and is a member; a failed
/// lookup means no member carries it.
pub proof fn lemma_find_lpt_by_id_member(types: Seq<store::LastPeriodType>, id: i32)
    ensures
        (match spec_find_lpt_by_id(types, id) {
            Some(r) => r.id == id && exists|i: int|
                0 <= i < types.len() && #[trigger] types[i] == r,
            None => forall|i: int| 0 <= i < types.len() ==> (#[trigger] types[i]).id != id,
        }),
    decreases types.len(),
{
    if types.len() > 0 {
        if types[0].id == id {
            assert(types[0] == spec_find_lpt_by_id(types, id)->Some_0);
        } else {
            lemma_find_lpt_by_id_member(types.skip(1), id);
            match spec_find_lpt_by_id(types.skip(1), id) {
                Some(r) => {
                    let i = choose|i: int| 0 <= i < types.skip(1).len() && types.skip(1)[i] == r;
                    assert(types[i + 1] == r);
                },
                None => {
                    assert forall|i: int|
                        0 <= i < types.len() implies (#[trigger] types[i]).id != id by {
                        if i > 0 {
                            assert(types.skip(1)[i - 1] == types[i]);
                        }
                    }
                },
            }
        }
    }
}

/// In a table with unique identifiers, looking up a member's identifier
/// finds exactly that member.
pub proof fn lemma_find_lpt_by_id_unique(types: Seq<store::LastPeriodType>, r: store::LastPeriodType)
    requires
        forall|i: int, j: int|
            0 <= i < j < types.len() ==> (#[trigger] types[i]).id != (#[trigger] types[j]).id,
        exists|i: int| 0 <= i < types.len() && #[trigger] types[i] == r,
    ensures
        spec_find_lpt_by_id(types, r.id) == Some(r),
{
    lemma_find_lpt_by_id_member(types, r.id);
    let j = choose|j: int| 0 <= j < types.len() && #[trigger] types[j] == r;
    match spec_find_lpt_by_id(types, r.id) {
        None => {
            assert(types[j].id == r.id);
        },
        Some(found) => {
            let i = choose|i: int| 0 <= i < types.len() && #[trigger] types[i] == found;
            if i != j {
                assert(types[i].id == types[j].id);
            }
        },
    }
}

/// Persistence does not alter outcome values: for any feed game that the
/// reconciler translates into ledger rows, reading those rows back through
/// the reference data and applying the points rule yields exactly what the
/// fresh-fetch path derives from the raw record, for either participating
/// team. The reference table must be well-formed, the outcome-type table
/// must have unique identifiers, and the code mapping must have been built
/// from that same table.
pub proof fn lemma_round_trip(
    g: feed::Game,
    teams: Seq<model::Team>,
    om: OutcomeMap,
    lpts: Seq<store::LastPeriodType>,
    t: model::Team,
    next_score_id: int,
    row: store::Game,
    sco: Option<store::Score>,
)
    requires
        model::teams_wf(teams),
        forall|i: int, j: int|
            0 <= i < j < lpts.len() ==> (#[trigger] lpts[i]).id != (#[trigger] lpts[j]).id,
        spec_build_outcome_map(lpts) == Ok::<OutcomeMap, FatalError>(om),
        exists|i: int| 0 <= i < teams.len() && #[trigger] teams[i] == t,
        t.api_id == g.home_team.id || t.api_id == g.away_team.id,
        spec_translate(g, teams, om, next_score_id) == Ok::<
            (store::Game, Option<store::Score>),
            FatalError,
        >((row, sco)),
    ensures
        (match sco {
            None => spec_db_to_crate(row, None, t) == spec_api_to_crate(g, t),
            Some(s) => match spec_find_lpt_by_id(lpts, s.last_period_type_id) {
                Some(lpt) => spec_db_to_crate(row, Some((s, lpt)), t) == spec_api_to_crate(g, t),
                None => false,
            },
        }),
{
    reveal_strlit("Regulation");
    reveal_strlit("Overtime");
    reveal_strlit("Shootout");
    model::lemma_find_team_member(teams, g.home_team.id);
    model::lemma_find_team_member(teams, g.away_team.id);
    let ht = model::spec_find_team_by_api(teams, g.home_team.id)->Some_0;
    let at = model::spec_find_team_by_api(teams, g.away_team.id)->Some_0;
    if t.api_id == g.home_team.id {
        model::lemma_find_team_unique(teams, t);
        assert(ht == t);
    } else {
        model::lemma_find_team_unique(teams, t);
        assert(at == t);
        assert(ht.api_id == g.home_team.id);
        assert(ht.api_id != t.api_id);
        model::lemma_wf_db_distinct(teams, ht, t);
        assert(row.home_team_id != t.db_id);
    }
    assert((row.home_team_id == t.db_id) == (g.home_team.id == t.api_id));
    match sco {
        None => {},
        Some(s) => {
            lemma_find_lpt_member(lpts, "Regulation"@);
            lemma_find_lpt_member(lpts, "Overtime"@);
            lemma_find_lpt_member(lpts, "Shootout"@);
            let reg = spec_find_lpt(lpts, "Regulation"@)->Some_0;
            let ot = spec_find_lpt(lpts, "Overtime"@)->Some_0;
            let so = spec_find_lpt(lpts, "Shootout"@)->Some_0;
            let pt = feed::spec_period_type_of(g.game_outcome->Some_0.last_period_type@)->Some_0;
            match pt {
                feed::PeriodType::REG => {
                    lemma_find_lpt_by_id_unique(lpts, reg);
                },
                feed::PeriodType::OT => {
                    lemma_find_lpt_by_id_unique(lpts, ot);
                    assert("Overtime"@ != "Regulation"@) by {
                        assert("Overtime"@[0] == 'O');
                        assert("Regulation"@[0] == 'R');
                    };
                },
                feed::PeriodType::SO => {
                    lemma_find_lpt_by_id_unique(lpts, so);
                    assert("Shootout"@ != "Overtime"@) by {
                        assert("Shootout"@[0] == 'S');
                        assert("Overtime"@[0] == 'O');
                    };
                    assert("Shootout"@ != "Regulation"@) by {
                        assert("Shootout"@[0] == 'S');
                        assert("Regulation"@[0] == 'R');
                    };
                },
            }
        },
    }
}

/// The running total after a sequence of games: each scored game adds its
/// points value less the baseline; unscored games add nothing.
pub open spec fn spec_running(games: Seq<model::Game>, baseline: int) -> int
    decreases games.len(),
{
    if games.len() == 0 {
        0
    } else {
        spec_running(games.drop_last(), baseline) + (match games.last().points {
            Some(p) => p.value() - baseline,
            None => 0,
        })
    }
}

/// The series points after the origin: one entry per scored game, carrying
/// the game's ordinal position (starting at 1) and the running total there.
pub open spec fn spec_series_rest(games: Seq<model::Game>, baseline: int) -> Seq<(int, int)>
    decreases games.len(),
{
    if games.len() == 0 {
        Seq::<(int, int)>::empty()
    } else {
        spec_series_rest(games.drop_last(), baseline) + (match games.last().points {
            Some(_) => seq![(games.len() as int, spec_running(games, baseline))],
            None => Seq::<(int, int)>::empty(),
        })
    }
}

/// A team's whole cumulative series: the implicit origin, then one point
/// per scored game.
pub open spec fn spec_series(games: Seq<model::Game>, baseline: int) -> Seq<(int, int)> {
    seq![(0int, 0int)] + spec_series_rest(games, baseline)
}

/// How many of the games carry points.
pub open spec fn spec_scored_count(games: Seq<model::Game>) -> int
    decreases games.len(),
{
    if games.len() == 0 {
        0
    } else {
        spec_scored_count(games.drop_last()) + (if games.last().points is Some {
            1int
        } else {
            0int
        })
    }
}

/// The no-score skip: a series holds exactly one point per scored game,
/// plus the origin — an unscored game contributes no point, whatever its
/// position among the scored ones.
pub proof fn lemma_series_one_point_per_scored_game(games: Seq<model::Game>, baseline: int)
    ensures
        spec_series(games, baseline).len() == 1 + spec_scored_count(games),
    decreases games.len(),
{
    if games.len() > 0 {
        lemma_series_one_point_per_scored_game(games.drop_last(), baseline);
    }
}

/// Produces a team's cumulative series over its games in order: the series
/// starts at the implicit origin; every scored game appends one point at
/// its ordinal position, adding its points value less the baseline to the
/// running total; an unscored game appends nothing but keeps its position.
/// The baseline is the caller's expected points per game.
pub fn cumulative_series(games: &Vec<model::Game>, baseline: i64) -> (r: Vec<SeriesPoint>)
    requires
        games@.len() < usize::MAX,
        (games@.len() as int + 1) * (abs(baseline as int) + 2) <= i64::MAX,
    ensures
        r@.len() == spec_series(games@, baseline as int).len(),
        forall|j: int|
            0 <= j < r@.len() ==> ((#[trigger] r@[j]).index as int, r@[j].value as int)
                == spec_series(games@, baseline as int)[j],
{
    let ghost b = baseline as int;
    let ghost k = abs(b) + 2;
    let ghost n = games@.len() as int;
    let mut out: Vec<SeriesPoint> = Vec::new();
    out.push(SeriesPoint { index: 0, value: 0 });
    let mut running: i64 = 0;
    let mut i: usize = 0;
    proof {
        assert(games@.take(0) =~= Seq::<model::Game>::empty());
    }
    while i < games.len()
        invariant
            0 <= i <= games.len(),
            n == games@.len() as int,
            b == baseline as int,
            k == abs(b) + 2,
            n < usize::MAX,
            (n + 1) * k <= i64::MAX,
            running as int == spec_running(games@.take(i as int), b),
            -((i as int) * k) <= running as int <= (i as int) * k,
            out@.len() == spec_series(games@.take(i as int), b).len(),
            forall|j: int|
                0 <= j < out@.len() ==> ((#[trigger] out@[j]).index as int, out@[j].value as int)
                    == spec_series(games@.take(i as int), b)[j],
        decreases games.len() - i,
    {
        let ghost pre = games@.take(i as int);
        proof {
            assert(games@.take(i as int + 1).drop_last() =~= pre);
            assert(games@.take(i as int + 1).last() == games@[i as int]);
            assert(k >= 2);
            assert((i as int) * k + k == (i as int + 1) * k) by (nonlinear_arith);
            assert((i as int + 1) * k <= (n + 1) * k) by (nonlinear_arith)
                requires
                    0 <= i as int + 1 <= n + 1,
                    k >= 0,
            ;
        }
        match games[i].points {
            None => {
                proof {
                    assert(spec_series_rest(games@.take(i as int + 1), b) == spec_series_rest(
                        pre,
                        b,
                    ) + Seq::<(int, int)>::empty());
                    assert(spec_series_rest(pre, b) + Seq::<(int, int)>::empty() =~= spec_series_rest(
                        pre,
                        b,
                    ));
                    assert(spec_series(games@.take(i as int + 1), b) == spec_series(pre, b));
                }
            },
            Some(p) => {
                let d = p.as_i64() - baseline;
                running = running + d;
                out.push(SeriesPoint { index: i + 1, value: running });
                proof {
                    let s_pre = spec_series(pre, b);
                    let s_now = spec_series(games@.take(i as int + 1), b);
                    assert(s_now == seq![(0int, 0int)] + (spec_series_rest(pre, b) + seq![
                        (i as int + 1, running as int),
                    ]));
                    assert(s_now =~= s_pre.push((i as int + 1, running as int)));
                }
            },
        }
        i = i + 1;
    }
    proof {
        assert(games@.take(games.len() as int) =~= games@);
    }
    out
}

} // verus!

