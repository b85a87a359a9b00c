//! The persisted game ledger and the reference-data row types.
//!
//! The rows mirror the durable store's tables one to one; the surrounding
//! program reads and writes the actual storage engine and hands the rows
//! over as plain values. [`Ledger`] is the engine's view of the game and
//! score tables, with the invariants the store is trusted to keep: unique
//! game identifiers, unique score identifiers, and no dangling score
//! reference.

use vstd::prelude::*;

verus! {

/// A division row of the reference data: a stable identifier and the
/// division's canonical name.
#[derive(Clone, Debug, PartialEq, Eq)]
pub struct Division {
    pub id: i32,
    pub name: String,
}

/// An outcome-type row of the reference data: a stable identifier and the
/// outcome type's canonical name (`Regulation`, `Overtime` or `Shootout`).
#[derive(Clone, Debug, PartialEq, Eq)]
pub struct LastPeriodType {
    pub id: i32,
    pub name: String,
}

/// A team row of the reference data: internal and external identifiers,
/// display attributes and the division reference.
#[derive(Clone, Debug, PartialEq, Eq)]
pub struct Team {
    pub id: i32,
    pub api_id: i32,
    pub r: i32,
    pub g: i32,
    pub b: i32,
    pub abbrev: String,
    pub division_id: i32,
}

/// A score row of the ledger: both final tallies and the outcome type that
/// ended the game. Immutable once created.
#[derive(Copy, Clone, Debug, PartialEq, Eq, Structural)]
pub struct Score {
    pub id: i64,
    pub home: i32,
    pub away: i32,
    pub last_period_type_id: i32,
}

/// A game row of the ledger: the game's external identifier (its identity
/// and deduplication key), both teams by internal identifier, and the score
/// reference, absent while the game is not final.
#[derive(Copy, Clone, Debug, PartialEq, Eq, Structural)]
pub struct Game {
    pub api_id: i32,
    pub home_team_id: i32,
    pub away_team_id: i32,
    pub score_id: Option<i64>,
}

/// The mathematical content of a [`Ledger`].
pub ghost struct LedgerModel {
    pub games: Seq<Game>,
    pub scores: Seq<Score>,
    pub next_score_id: int,
}

/// Whether some game row in `games` carries the external identifier `id`.
pub open spec fn has_game_id(games: Seq<Game>, id: i32) -> bool {
    exists|i: int| 0 <= i < games.len() && games[i].api_id == id
}

/// Whether some score row in `scores` carries the identifier `id`.
pub open spec fn has_score_id(scores: Seq<Score>, id: i64) -> bool {
    exists|i: int| 0 <= i < scores.len() && scores[i].id == id
}

/// The ledger's invariants: game external identifiers are unique (a game is
/// never recorded twice), score identifiers are unique and below the
/// generator's next value, and every score reference resolves.
pub open spec fn ledger_wf(l: LedgerModel) -> bool {
    &&& 0 <= l.next_score_id
    &&& forall|i: int, j: int|
        0 <= i < j < l.games.len() ==> (#[trigger] l.games[i]).api_id != (#[trigger] l.games[j]).api_id
    &&& forall|i: int, j: int|
        0 <= i < j < l.scores.len() ==> (#[trigger] l.scores[i]).id != (#[trigger] l.scores[j]).id
    &&& forall|i: int| 0 <= i < l.scores.len() ==> (#[trigger] l.scores[i]).id < l.next_score_id
    &&& forall|i: int|
        0 <= i < l.games.len() ==> match (#[trigger] l.games[i]).score_id {
            Some(sid) => has_score_id(l.scores, sid),
            None => true,
        }
}

/// The durable record of every known game and, where final, its score.
/// Supports appends of new games and scores and lookups; the engine never
/// updates or deletes a record.
#[derive(Clone, Debug, PartialEq, Eq)]
pub struct Ledger {
    pub games: Vec<Game>,
    pub scores: Vec<Score>,
    pub next_score_id: i64,
}

impl View for Ledger {
    type V = LedgerModel;

    open spec fn view(&self) -> LedgerModel {
        LedgerModel { games: self.games@, scores: self.scores@, next_score_id: self.next_score_id as int }
    }
}

impl Ledger {
    /// The ledger's invariants; constructors establish them and every
    /// operation preserves them.
    pub open spec fn wf(&self) -> bool {
        ledger_wf(self@)
    }

    /// An empty ledger, generating score identifiers from 1 as the store
    /// does.
    pub fn new() -> (l: Ledger)
        ensures
            l@.games == Seq::<Game>::empty(),
            l@.scores == Seq::<Score>::empty(),
            l@.next_score_id == 1,
            l.wf(),
    {
        Ledger { games: Vec::new(), scores: Vec::new(), next_score_id: 1 }
    }

    /// Inserts a new score and returns its generated reference. The games
    /// are untouched.
    pub fn insert_score(&mut self, home: i32, away: i32, last_period_type_id: i32) -> (id: i64)
        requires
            old(self).wf(),
            old(self)@.next_score_id < i64::MAX,
        ensures
            id == old(self)@.next_score_id,
            final(self)@.scores == old(self)@.scores.push(
                (Score { id, home, away, last_period_type_id }),
            ),
            final(self)@.games == old(self)@.games,
            final(self)@.next_score_id == old(self)@.next_score_id + 1,
            final(self).wf(),
    {
        let id = self.next_score_id;
        let ghost scores_before = self@.scores;
        self.scores.push(Score { id, home, away, last_period_type_id });
        self.next_score_id = self.next_score_id + 1;
        proof {
            assert forall|i: int|
                0 <= i < self@.games.len() implies match (#[trigger] self@.games[i]).score_id {
                Some(sid) => has_score_id(self@.scores, sid),
                None => true,
            } by {
                match self@.games[i].score_id {
                    Some(sid) => {
                        assert(has_score_id(scores_before, sid));
                        let j = choose|j: int|
                            0 <= j < scores_before.len() && scores_before[j].id == sid;
                        assert(self@.scores[j].id == sid);
                    },
                    None => {},
                }
            }
        }
        id
    }

    /// Inserts a new game row. The row's identifier must be new to the
    /// ledger and its score reference, if any, must resolve.
    pub fn insert_game(&mut self, game: Game)
        requires
            old(self).wf(),
            !has_game_id(old(self)@.games, game.api_id),
            match game.score_id {
                Some(sid) => has_score_id(old(self)@.scores, sid),
                None => true,
            },
        ensures
            final(self)@.games == old(self)@.games.push(game),
            final(self)@.scores == old(self)@.scores,
            final(self)@.next_score_id == old(self)@.next_score_id,
            final(self).wf(),
    {
        self.games.push(game);
    }

    /// Whether a game with this external identifier is already recorded.
    pub fn contains_game(&self, api_id: i32) -> (r: bool)
        ensures
            r == has_game_id(self@.games, api_id),
    {
        contains_game_row(&self.games, api_id)
    }

    /// Bulk read of the given team's games, in recorded order: every game
    /// in which the team, by internal identifier, plays home or away.
    pub fn games_for_team(&self, team_db_id: i32) -> (r: Vec<Game>)
        ensures
            r@ == spec_team_games(self@.games, team_db_id),
    {
        let mut r: Vec<Game> = Vec::new();
        let mut i: usize = 0;
        while i < self.games.len()
            invariant
                0 <= i <= self.games.len(),
                r@ == spec_team_games(self@.games.take(i as int), team_db_id),
            decreases self.games.len() - i,
        {
            let g = self.games[i];
            proof {
                assert(self@.games.take(i as int + 1).drop_last() =~= self@.games.take(i as int));
                assert(self@.games.take(i as int + 1).last() == self@.games[i as int]);
                reveal_with_fuel(Seq::filter, 2);
            }
            if g.home_team_id == team_db_id || g.away_team_id == team_db_id {
                r.push(g);
            }
            i = i + 1;
        }
        proof {
            assert(self@.games.take(self.games.len() as int) =~= self@.games);
        }
        r
    }

    /// Looks a score up by its reference.
    pub fn find_score(&self, id: i64) -> (r: Option<Score>)
        ensures
            r == spec_find_score(self@.scores, id),
    {
        proof {
            assert(self@.scores.skip(0) =~= self@.scores);
        }
        let mut i: usize = 0;
        while i < self.scores.len()
            invariant
                0 <= i <= self.scores.len(),
                spec_find_score(self@.scores, id) == spec_find_score(self@.scores.skip(i as int), id),
            decreases self.scores.len() - i,
        {
            proof {
                assert(self@.scores.skip(i as int)[0] == self@.scores[i as int]);
                assert(self@.scores.skip(i as int).skip(1) =~= self@.scores.skip(i as int + 1));
            }
            if self.scores[i].id == id {
                return Some(self.scores[i]);
            }
            i = i + 1;
        }
        proof {
            assert(self@.scores.skip(self.scores.len() as int) =~= Seq::<Score>::empty());
        }
        None
    }
}

/// The games in which the team with internal identifier `team_db_id` plays
/// home or away, in recorded order.
pub open spec fn spec_team_games(games: Seq<Game>, team_db_id: i32) -> Seq<Game> {
    games.filter(|g: Game| g.home_team_id == team_db_id || g.away_team_id == team_db_id)
}

/// The first score row carrying `id`, if any.
pub open spec fn spec_find_score(scores: Seq<Score>, id: i64) -> Option<Score>
    decreases scores.len(),
{
    if scores.len() == 0 {
        None
    } else if scores[0].id == id {
        Some(scores[0])
    } else {
        spec_find_score(scores.skip(1), id)
    }
}

/// Whether some game row in `games` carries the external identifier
/// `api_id`; shared by the ledger and the reconciler's pending inserts.
pub fn contains_game_row(games: &Vec<Game>, api_id: i32) -> (r: bool)
    ensures
        r == has_game_id(games@, api_id),
{
    let mut i: usize = 0;
    while i < games.len()
        invariant
            0 <= i <= games.len(),
            forall|j: int| 0 <= j < i ==> (#[trigger] games@[j]).api_id != api_id,
        decreases games.len() - i,
    {
        if games[i].api_id == api_id {
            return true;
        }
        i = i + 1;
    }
    false
}

} // verus!
