//! Core of a hackathon voting service: a phase state machine, a
//! quadratic-vote tally engine, and a transaction runner that executes
//! each request as one atomic unit of work against a SQLite store.
//!
//! HTML rendering, HTTP plumbing and configuration loading live outside
//! this crate; they call in with plain values and render what comes back.
use vstd::prelude::*;

pub mod config;
pub mod database;
pub mod endpoints;
pub mod form;
pub mod numparse;
pub mod outcome;
pub mod phase;
pub mod rank;
pub mod runner;
pub mod tally;
pub mod validate;

verus! {

use crate::phase::Phase;

/// The identity a request acts as: an email-like string and whether it
/// matches the configured administrator address. Recomputed per request,
/// never persisted.
pub struct User {
    pub email: String,
    pub is_admin: bool,
}

impl User {
    /// Whether the vote totals and ranks may be shown to this user.
    pub open spec fn spec_can_see_outcome(&self, phase: Phase) -> bool {
        phase == Phase::Celebration || (phase == Phase::Revelation && self.is_admin)
    }

    /// Whether the vote totals and ranks may be shown to this user.
    ///
    /// During the revelation ceremony only the administrator sees the
    /// outcome, so nobody can run ahead and check who won; afterwards
    /// everybody can.
    #[verifier::when_used_as_spec(spec_can_see_outcome)]
    pub fn can_see_outcome(&self, phase: Phase) -> (r: bool)
        ensures
            r == (phase == Phase::Celebration || (phase == Phase::Revelation && self.is_admin)),
    {
        match phase {
            Phase::Revelation => self.is_admin,
            Phase::Celebration => true,
            _ => false,
        }
    }
}

} // verus!
