//! The outcome of one request: a status discriminant and the data the
//! caller renders.
//!
//! The status decides durability: below 400 the transaction runner
//! commits the unit of work, at or above it everything rolls back and
//! the caller still sees the outcome.
use vstd::prelude::*;

verus! {

use crate::phase::Phase;
use crate::rank::TeamEntry;

/// What a handler hands back to be rendered.
pub enum OutcomeBody {
    /// A human-readable reason, mostly for errors.
    Message(String),
    /// A location to redirect to after a successful action.
    Redirect(String),
    /// The data of the main page.
    Index(IndexData),
}

/// Everything the main page shows.
pub struct IndexData {
    pub phase: Phase,
    pub teams: Vec<TeamEntry>,
    pub cheaters: Vec<String>,
    pub voter_count: i64,
}

/// The result of one request.
pub struct Outcome {
    pub status: u16,
    pub body: OutcomeBody,
}

/// The statuses this library produces.
pub open spec fn valid_status(s: u16) -> bool {
    s == 200 || s == 303 || s == 400 || s == 403 || s == 404 || s == 409 || s == 500 || s == 503
}

/// A malformed or out-of-policy request.
pub fn bad_request(reason: &str) -> (r: Outcome)
    ensures
        r.status == 400,
        r.body matches OutcomeBody::Message(m) && m@ == reason@,
{
    Outcome { status: 400, body: OutcomeBody::Message(reason.to_owned()) }
}

/// A request whose precondition no longer holds.
pub fn conflict(reason: &str) -> (r: Outcome)
    ensures
        r.status == 409,
        r.body matches OutcomeBody::Message(m) && m@ == reason@,
{
    Outcome { status: 409, body: OutcomeBody::Message(reason.to_owned()) }
}

/// A request the acting identity may not make.
pub fn forbidden(reason: &str) -> (r: Outcome)
    ensures
        r.status == 403,
        r.body matches OutcomeBody::Message(m) && m@ == reason@,
{
    Outcome { status: 403, body: OutcomeBody::Message(reason.to_owned()) }
}

/// A path this service does not serve.
pub fn not_found(reason: &str) -> (r: Outcome)
    ensures
        r.status == 404,
        r.body matches OutcomeBody::Message(m) && m@ == reason@,
{
    Outcome { status: 404, body: OutcomeBody::Message(reason.to_owned()) }
}

/// An unexpected failure inside the service.
pub fn internal_error(reason: &str) -> (r: Outcome)
    ensures
        r.status == 500,
        r.body matches OutcomeBody::Message(m) && m@ == reason@,
{
    Outcome { status: 500, body: OutcomeBody::Message(reason.to_owned()) }
}

/// The store stayed busy through every retry.
pub fn service_unavailable(reason: &str) -> (r: Outcome)
    ensures
        r.status == 503,
        r.body matches OutcomeBody::Message(m) && m@ == reason@,
{
    Outcome { status: 503, body: OutcomeBody::Message(reason.to_owned()) }
}

/// A successful action, answered with where to go next.
pub fn redirect_see_other(location: String) -> (r: Outcome)
    ensures
        r.status == 303,
        r.body == OutcomeBody::Redirect(location),
{
    Outcome { status: 303, body: OutcomeBody::Redirect(location) }
}

/// The main page.
pub fn index_page(data: IndexData) -> (r: Outcome)
    ensures
        r.status == 200,
        r.body == OutcomeBody::Index(data),
{
    Outcome { status: 200, body: OutcomeBody::Index(data) }
}

} // verus!
