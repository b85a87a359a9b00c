//! The engine's domain model: teams, divisions and per-game point values,
//! built up from reference-data rows.

use crate::errors::FatalError;
use crate::store;
use vstd::prelude::*;

verus! {

/// The league's four divisions.
#[derive(Copy, Clone, Debug, PartialEq, Eq, Structural)]
pub enum Division {
    Central,
    Pacific,
    Atlantic,
    Metropolitan,
}

/// A display color, one channel per field.
#[derive(Copy, Clone, Debug, PartialEq, Eq, Structural)]
pub struct Color {
    pub r: u8,
    pub g: u8,
    pub b: u8,
}

/// A team of the league: its internal (store) identifier, its external
/// (feed) identifier — two distinct namespaces kept mapped here — display
/// attributes and its division. Immutable once loaded.
#[derive(Clone, Debug, PartialEq, Eq)]
pub struct Team {
    pub db_id: i32,
    pub api_id: i32,
    pub color: Color,
    pub abbrev: String,
    pub division: Division,
}

/// How a completed game ended. Used only for completed games; the
/// reference data carries a stable identifier for each.
#[derive(Copy, Clone, Debug, PartialEq, Eq, Structural)]
pub enum OutcomeType {
    Regulation,
    Overtime,
    Shootout,
}

/// The outcome type a stored outcome-type row names, if its name is one of
/// the league's three.
pub open spec fn spec_outcome_of_name(name: Seq<char>) -> Option<OutcomeType> {
    if name == "Regulation"@ {
        Some(OutcomeType::Regulation)
    } else if name == "Overtime"@ {
        Some(OutcomeType::Overtime)
    } else if name == "Shootout"@ {
        Some(OutcomeType::Shootout)
    } else {
        None
    }
}

/// The outcome type a feed code denotes.
pub open spec fn spec_kind_of_code(pt: crate::feed::PeriodType) -> OutcomeType {
    match pt {
        crate::feed::PeriodType::REG => OutcomeType::Regulation,
        crate::feed::PeriodType::OT => OutcomeType::Overtime,
        crate::feed::PeriodType::SO => OutcomeType::Shootout,
    }
}

/// The league's points rule, from one team's side: a win is worth 2
/// whatever ended the game; a loss is worth 1 if the game reached overtime
/// or a shootout and 0 if it was decided in regulation.
pub open spec fn spec_points(mine: i32, theirs: i32, outcome: OutcomeType) -> Points {
    if mine > theirs {
        Points::Win
    } else {
        match outcome {
            OutcomeType::Regulation => Points::RegulationLoss,
            OutcomeType::Overtime => Points::OvertimeLoss,
            OutcomeType::Shootout => Points::OvertimeLoss,
        }
    }
}

/// The points one team earned in one completed game: 2 for a win, 1 for a
/// loss that reached overtime or a shootout, 0 for a loss in regulation.
#[derive(Copy, Clone, Debug, PartialEq, Eq, Structural)]
pub enum Points {
    Win,
    OvertimeLoss,
    RegulationLoss,
}

impl Points {
    /// The numeric points value.
    pub open spec fn value(self) -> int {
        match self {
            Points::Win => 2,
            Points::OvertimeLoss => 1,
            Points::RegulationLoss => 0,
        }
    }

    /// The numeric points value, for accumulation.
    pub fn as_i64(self) -> (v: i64)
        ensures
            v == self.value(),
    {
        match self {
            Points::Win => 2,
            Points::OvertimeLoss => 1,
            Points::RegulationLoss => 0,
        }
    }
}

/// One game as seen from one team's side: the points the team earned, or
/// nothing while the game has no final score.
#[derive(Copy, Clone, Debug, PartialEq, Eq, Structural)]
pub struct Game {
    pub points: Option<Points>,
}

/// The division a division row names, if its name is one of the league's
/// four.
pub open spec fn spec_division_of_name(name: Seq<char>) -> Option<Division> {
    if name == "Metropolitan"@ {
        Some(Division::Metropolitan)
    } else if name == "Pacific"@ {
        Some(Division::Pacific)
    } else if name == "Atlantic"@ {
        Some(Division::Atlantic)
    } else if name == "Central"@ {
        Some(Division::Central)
    } else {
        None
    }
}

/// The first division row carrying `id`, if any.
pub open spec fn spec_find_division(divisions: Seq<store::Division>, id: i32) -> Option<
    store::Division,
>
    decreases divisions.len(),
{
    if divisions.len() == 0 {
        None
    } else if divisions[0].id == id {
        Some(divisions[0])
    } else {
        spec_find_division(divisions.skip(1), id)
    }
}

/// What translating one team row yields: the team, or the fatal condition
/// that the reference data lacks the division or names it unrecognizably.
pub open spec fn spec_team_to_crate(row: store::Team, divisions: Seq<store::Division>) -> Result<
    Team,
    FatalError,
> {
    match spec_find_division(divisions, row.division_id) {
        None => Err(FatalError::UnknownDivisionId(row.division_id)),
        Some(d) => match spec_division_of_name(d.name@) {
            None => Err(FatalError::UnknownDivisionName(d.id)),
            Some(division) => Ok(
                (Team {
                    db_id: row.id,
                    api_id: row.api_id,
                    color: (Color { r: row.r as u8, g: row.g as u8, b: row.b as u8 }),
                    abbrev: row.abbrev,
                    division,
                }),
            ),
        },
    }
}

/// What translating a whole team table yields: every row translated in
/// order, or the first failing row's fatal condition.
pub open spec fn spec_get_teams(rows: Seq<store::Team>, divisions: Seq<store::Division>) -> Result<
    Seq<Team>,
    FatalError,
>
    decreases rows.len(),
{
    if rows.len() == 0 {
        Ok(Seq::<Team>::empty())
    } else {
        match spec_team_to_crate(rows[0], divisions) {
            Err(e) => Err(e),
            Ok(t) => match spec_get_teams(rows.skip(1), divisions) {
                Err(e) => Err(e),
                Ok(rest) => Ok(seq![t] + rest),
            },
        }
    }
}

/// The first team, if any, whose external identifier is `api_id`.
pub open spec fn spec_find_team_by_api(teams: Seq<Team>, api_id: i32) -> Option<Team>
    decreases teams.len(),
{
    if teams.len() == 0 {
        None
    } else if teams[0].api_id == api_id {
        Some(teams[0])
    } else {
        spec_find_team_by_api(teams.skip(1), api_id)
    }
}

/// Distinct teams carry distinct identifiers in both namespaces; the
/// reconciler and the deriver translate between the namespaces through this
/// table, so a collision would alias two teams.
pub open spec fn teams_wf(teams: Seq<Team>) -> bool {
    &&& forall|i: int, j: int|
        0 <= i < j < teams.len() ==> (#[trigger] teams[i]).api_id != (#[trigger] teams[j]).api_id
    &&& forall|i: int, j: int|
        0 <= i < j < teams.len() ==> (#[trigger] teams[i]).db_id != (#[trigger] teams[j]).db_id
}

/// A found team carries the identifier looked up and is a member of the
/// table; a failed lookup means no member carries it.
pub proof fn lemma_find_team_member(teams: Seq<Team>, api_id: i32)
    ensures
        (match spec_find_team_by_api(teams, api_id) {
            Some(t) => t.api_id == api_id && exists|i: int|
                0 <= i < teams.len() && #[trigger] teams[i] == t,
            None => forall|i: int| 0 <= i < teams.len() ==> (#[trigger] teams[i]).api_id != api_id,
        }),
    decreases teams.len(),
{
    if teams.len() > 0 {
        if teams[0].api_id == api_id {
            assert(teams[0] == spec_find_team_by_api(teams, api_id)->Some_0);
        } else {
            lemma_find_team_member(teams.skip(1), api_id);
            match spec_find_team_by_api(teams.skip(1), api_id) {
                Some(t) => {
                    let i = choose|i: int| 0 <= i < teams.skip(1).len() && teams.skip(1)[i] == t;
                    assert(teams[i + 1] == t);
                },
                None => {
                    assert forall|i: int|
                        0 <= i < teams.len() implies (#[trigger] teams[i]).api_id != api_id by {
                        if i > 0 {
                            assert(teams.skip(1)[i - 1] == teams[i]);
                        }
                    }
                },
            }
        }
    }
}

/// In a well-formed table, looking up the external identifier of a member
/// finds exactly that member.
pub proof fn lemma_find_team_unique(teams: Seq<Team>, t: Team)
    requires
        teams_wf(teams),
        exists|i: int| 0 <= i < teams.len() && #[trigger] teams[i] == t,
    ensures
        spec_find_team_by_api(teams, t.api_id) == Some(t),
{
    lemma_find_team_member(teams, t.api_id);
    let j = choose|j: int| 0 <= j < teams.len() && #[trigger] teams[j] == t;
    match spec_find_team_by_api(teams, t.api_id) {
        None => {
            assert(teams[j].api_id == t.api_id);
        },
        Some(ht) => {
            let i = choose|i: int| 0 <= i < teams.len() && #[trigger] teams[i] == ht;
            if i != j {
                assert(teams[i].api_id == teams[j].api_id);
            }
        },
    }
}

/// In a well-formed table, members with distinct external identifiers have
/// distinct internal identifiers.
pub proof fn lemma_wf_db_distinct(teams: Seq<Team>, a: Team, b: Team)
    requires
        teams_wf(teams),
        exists|i: int| 0 <= i < teams.len() && #[trigger] teams[i] == a,
        exists|i: int| 0 <= i < teams.len() && #[trigger] teams[i] == b,
        a.api_id != b.api_id,
    ensures
        a.db_id != b.db_id,
{
    let i = choose|i: int| 0 <= i < teams.len() && #[trigger] teams[i] == a;
    let j = choose|j: int| 0 <= j < teams.len() && #[trigger] teams[j] == b;
    assert(i != j);
    assert(teams[i].db_id != teams[j].db_id);
}

impl store::Team {
    /// Translates this team row against the division table; fatal if the
    /// division is missing or carries an unknown name.
    pub fn db_to_crate(&self, divisions: &Vec<store::Division>) -> (r: Result<Team, FatalError>)
        ensures
            r == spec_team_to_crate(*self, divisions@),
    {
        let d_idx = match find_division(divisions, self.division_id) {
            None => {
                return Err(FatalError::UnknownDivisionId(self.division_id));
            },
            Some(i) => i,
        };
        let division = if divisions[d_idx].name == "Metropolitan".to_owned() {
            Division::Metropolitan
        } else if divisions[d_idx].name == "Pacific".to_owned() {
            Division::Pacific
        } else if divisions[d_idx].name == "Atlantic".to_owned() {
            Division::Atlantic
        } else if divisions[d_idx].name == "Central".to_owned() {
            Division::Central
        } else {
            return Err(FatalError::UnknownDivisionName(divisions[d_idx].id));
        };
        Ok(
            Team {
                db_id: self.id,
                api_id: self.api_id,
                color: Color {
                    r: #[verifier::truncate] (self.r as u8),
                    g: #[verifier::truncate] (self.g as u8),
                    b: #[verifier::truncate] (self.b as u8),
                },
                abbrev: self.abbrev.clone(),
                division,
            },
        )
    }
}

/// Looks a division row up by identifier, returning its position.
fn find_division(divisions: &Vec<store::Division>, id: i32) -> (r: Option<usize>)
    ensures
        (match r {
            Some(i) => i < divisions@.len() && spec_find_division(divisions@, id) == Some(
                divisions@[i as int],
            ),
            None => spec_find_division(divisions@, id) is None,
        }),
{
    proof {
        assert(divisions@.skip(0) =~= divisions@);
    }
    let mut i: usize = 0;
    while i < divisions.len()
        invariant
            0 <= i <= divisions.len(),
            spec_find_division(divisions@, id) == spec_find_division(divisions@.skip(i as int), id),
        decreases divisions.len() - i,
    {
        proof {
            assert(divisions@.skip(i as int)[0] == divisions@[i as int]);
            assert(divisions@.skip(i as int).skip(1) =~= divisions@.skip(i as int + 1));
        }
        if divisions[i].id == id {
            return Some(i);
        }
        i = i + 1;
    }
    proof {
        assert(divisions@.skip(divisions.len() as int) =~= Seq::<store::Division>::empty());
    }
    None
}

/// Translates the whole team table; fatal on the first row whose division
/// is missing or unrecognizable.
pub fn get_teams(rows: &Vec<store::Team>, divisions: &Vec<store::Division>) -> (r: Result<
    Vec<Team>,
    FatalError,
>)
    ensures
        (match spec_get_teams(rows@, divisions@) {
            Ok(ts) => r matches Ok(v) && v@ == ts,
            Err(e) => r == Err::<Vec<Team>, FatalError>(e),
        }),
{
    proof {
        assert(rows@.skip(0) =~= rows@);
    }
    let mut out: Vec<Team> = Vec::new();
    let mut i: usize = 0;
    while i < rows.len()
        invariant
            0 <= i <= rows.len(),
            (match spec_get_teams(rows@, divisions@) {
                Ok(ts) => spec_get_teams(rows@.skip(i as int), divisions@) matches Ok(rest)
                    && ts == out@ + rest,
                Err(e) => spec_get_teams(rows@.skip(i as int), divisions@) == Err::<
                    Seq<Team>,
                    FatalError,
                >(e),
            }),
        decreases rows.len() - i,
    {
        proof {
            assert(rows@.skip(i as int)[0] == rows@[i as int]);
            assert(rows@.skip(i as int).skip(1) =~= rows@.skip(i as int + 1));
        }
        match rows[i].db_to_crate(divisions) {
            Ok(t) => {
                let ghost out_before = out@;
                out.push(t);
                proof {
                    match spec_get_teams(rows@.skip(i as int + 1), divisions@) {
                        Ok(rest2) => {
                            assert(out_before + (seq![t] + rest2) =~= out@ + rest2);
                        },
                        Err(_) => {},
                    }
                }
            },
            Err(e) => {
                return Err(e);
            },
        }
        i = i + 1;
    }
    proof {
        assert(rows@.skip(rows.len() as int) =~= Seq::<store::Team>::empty());
        if spec_get_teams(rows@, divisions@) matches Ok(ts) {
            assert(out@ + Seq::<Team>::empty() =~= out@);
        }
    }
    Ok(out)
}

/// Looks a team up by its external identifier, returning its position.
pub fn find_team_by_api(teams: &Vec<Team>, api_id: i32) -> (r: Option<usize>)
    ensures
        (match r {
            Some(i) => i < teams@.len() && spec_find_team_by_api(teams@, api_id) == Some(
                teams@[i as int],
            ),
            None => spec_find_team_by_api(teams@, api_id) is None,
        }),
{
    proof {
        assert(teams@.skip(0) =~= teams@);
    }
    let mut i: usize = 0;
    while i < teams.len()
        invariant
            0 <= i <= teams.len(),
            spec_find_team_by_api(teams@, api_id) == spec_find_team_by_api(
                teams@.skip(i as int),
                api_id,
            ),
        decreases teams.len() - i,
    {
        proof {
            assert(teams@.skip(i as int)[0] == teams@[i as int]);
            assert(teams@.skip(i as int).skip(1) =~= teams@.skip(i as int + 1));
        }
        if teams[i].api_id == api_id {
            return Some(i);
        }
        i = i + 1;
    }
    proof {
        assert(teams@.skip(teams.len() as int) =~= Seq::<Team>::empty());
    }
    None
}

} // verus!
