//! Fatal conditions of the engine.
//!
//! Every failure the engine can report indicates that the reference data is
//! stale relative to the feed, or that a feed record violates the feed's own
//! contract. None of them is a normal missing-data case: an incomplete game
//! simply carries no score and no outcome, which is not an error.

use crate::feed::PeriodType;
use vstd::prelude::*;

verus! {

/// A condition on which an operation aborts loudly instead of silently
/// dropping or defaulting data.
#[derive(Copy, Clone, Debug, PartialEq, Eq, Structural)]
pub enum FatalError {
    /// A team row references a division identifier absent from the
    /// reference data. Carries the division identifier.
    UnknownDivisionId(i32),
    /// A division row carries a name outside the league's four divisions.
    /// Carries the division row's identifier.
    UnknownDivisionName(i32),
    /// The reference data's outcome-type table has no row named after this
    /// outcome kind, so the feed-code mapping cannot be built.
    MissingOutcomeType(PeriodType),
    /// A stored outcome-type row carries a name outside the league's three
    /// outcome types. Carries the row's identifier.
    UnknownOutcomeName(i32),
    /// A stored score references an outcome-type identifier absent from the
    /// reference data. Carries that identifier.
    UnknownOutcomeId(i32),
    /// A feed record references a team external identifier with no known
    /// mapping to an internal identifier. Carries the external identifier.
    UnknownTeam(i32),
    /// A feed game carries an outcome-type code outside the feed's
    /// three-symbol vocabulary. Carries the game's external identifier.
    UnknownOutcomeCode(i32),
    /// A feed game has an outcome but lacks a final tally for one of its
    /// sides. Carries the game's external identifier.
    MissingScore(i32),
}

} // verus!
