//! The transaction runner and the dispatch table.
//!
//! Every request executes as one unit of work: begin, run the handler,
//! then commit when the outcome's status is success-like and roll back
//! otherwise, so a failed request leaves no partial writes. When the
//! store reports its busy condition — another writer holds the lock —
//! the whole unit of work is retried from scratch, a bounded number of
//! times; exhausting the bound yields a service-unavailable outcome.
//! Any other store error is fatal to the session and surfaces to the
//! caller, who opens a fresh session before serving again.
use vstd::prelude::*;

verus! {

use crate::User;
use crate::config::Config;
use crate::database::{Session, StoreError};
use crate::endpoints;
use crate::form::{FormError, fold_create_team, fold_team_id, fold_vote_pairs, form_pairs_of};
use crate::outcome::{Outcome, not_found, service_unavailable, valid_status};
use crate::tally::sum_squares;
use crate::validate::{str_eq, valid_text_seq};
use vstd::string::StrSliceExecFns;
use vstd::string::StringSliceAdditionalSpecFns;

/// How many times a busy unit of work is attempted before giving up.
pub const MAX_ATTEMPTS: u32 = 6;

/// The operations a request can name.
#[derive(Clone, Copy, PartialEq, Eq, Structural, Debug)]
pub enum Action {
    Index,
    CreateTeam,
    DeleteTeam,
    LeaveTeam,
    JoinTeam,
    Vote,
    PhasePrev,
    PhaseNext,
    NotFound,
}

/// Which action a method and path name.
pub open spec fn spec_route(is_post: bool, path: Seq<char>) -> Action {
    if is_post {
        if path == "/create-team"@ {
            Action::CreateTeam
        } else if path == "/delete-team"@ {
            Action::DeleteTeam
        } else if path == "/leave-team"@ {
            Action::LeaveTeam
        } else if path == "/join-team"@ {
            Action::JoinTeam
        } else if path == "/vote"@ {
            Action::Vote
        } else if path == "/prev"@ {
            Action::PhasePrev
        } else if path == "/next"@ {
            Action::PhaseNext
        } else {
            Action::NotFound
        }
    } else {
        if path == ""@ || path == "/"@ {
            Action::Index
        } else {
            Action::NotFound
        }
    }
}

/// Map a method and path to the action they name. Anything that is not
/// a POST is treated as a GET.
pub fn route(is_post: bool, path: &str) -> (r: Action)
    ensures
        r == spec_route(is_post, path@),
{
    if is_post {
        if str_eq(path, "/create-team") {
            Action::CreateTeam
        } else if str_eq(path, "/delete-team") {
            Action::DeleteTeam
        } else if str_eq(path, "/leave-team") {
            Action::LeaveTeam
        } else if str_eq(path, "/join-team") {
            Action::JoinTeam
        } else if str_eq(path, "/vote") {
            Action::Vote
        } else if str_eq(path, "/prev") {
            Action::PhasePrev
        } else if str_eq(path, "/next") {
            Action::PhaseNext
        } else {
            Action::NotFound
        }
    } else {
        if str_eq(path, "") || str_eq(path, "/") {
            Action::Index
        } else {
            Action::NotFound
        }
    }
}

/// The request path with the configured url prefix removed, where it
/// starts with that prefix.
pub fn strip_url_prefix<'a>(config: &Config, url: &'a str) -> (r: Option<&'a str>)
    ensures
        ({
            let u = url@;
            let p = config.server.prefix@;
            if p.len() <= u.len() && u.subrange(0, p.len() as int) == p {
                r matches Some(rest) && rest@ == u.subrange(p.len() as int, u.len() as int)
            } else {
                r is None
            }
        }),
{
    let ul = url.unicode_len();
    let pl = config.server.prefix.as_str().unicode_len();
    if pl <= ul {
        let head = url.substring_char(0, pl);
        if str_eq(head, config.server.prefix.as_str()) {
            return Some(url.substring_char(pl, ul));
        }
    }
    None
}

/// What an outcome of one action promises, whatever the store held:
/// phase changes succeed exactly for the administrator, an unroutable
/// path is not found, and a vote submission is judged by its quadratic
/// cost against the budget.
pub open spec fn action_guarantee(
    config: &Config,
    user: &User,
    action: Action,
    body: &str,
    o: Outcome,
) -> bool {
    &&& (action == Action::PhasePrev || action == Action::PhaseNext) ==> o.status == if user.is_admin {
        303int
    } else {
        403int
    }
    &&& action == Action::NotFound ==> o.status == 404
    &&& action == Action::Vote ==> {
        let f = fold_vote_pairs(form_pairs_of(body.spec_bytes()), Seq::empty());
        &&& o.status == 303 || o.status == 400
        &&& f is Err ==> o.status == 400
        &&& f matches Ok(sub) ==> {
            &&& sum_squares(sub) > i64::MAX ==> o.status == 400
            &&& (sum_squares(sub) <= i64::MAX && sum_squares(sub) > config.app.coins_to_spend)
                ==> o.status == 400
            &&& (sum_squares(sub) <= config.app.coins_to_spend && (forall|i: int|
                0 <= i < sub.len() ==> (#[trigger] sub[i]).1 >= 0)) ==> o.status == 303
        }
    }
}

/// What an action owes before the store is ever consulted: these
/// requests are decided (and their outcome returned) without a store
/// call, so not even a store failure excuses them.
pub open spec fn action_owed(
    user: &User,
    action: Action,
    body: &str,
    r: Result<Outcome, StoreError>,
) -> bool {
    &&& (action == Action::PhasePrev || action == Action::PhaseNext) && !user.is_admin ==> (
    r matches Ok(o) && o.status == 403)
    &&& action == Action::NotFound ==> (r matches Ok(o) && o.status == 404)
    &&& action == Action::Vote && fold_vote_pairs(
        form_pairs_of(body.spec_bytes()),
        Seq::empty(),
    ) is Err ==> (r matches Ok(o) && o.status == 400)
    &&& action == Action::CreateTeam ==> ({
        let f = fold_create_team(form_pairs_of(body.spec_bytes()), Seq::empty(), Seq::empty());
        (f is Err || (f matches Ok(nd) && (!valid_text_seq(65, nd.0) || !valid_text_seq(
            120,
            nd.1,
        )))) ==> (r matches Ok(o) && o.status == 400)
    })
    &&& (action == Action::DeleteTeam || action == Action::LeaveTeam || action
        == Action::JoinTeam) ==> ({
        let f = fold_team_id(form_pairs_of(body.spec_bytes()), 0);
        (f is Err || f == Ok::<i64, FormError>(0)) ==> (r matches Ok(o) && o.status == 400)
    })
}

/// Run one action inside an already-open transaction.
pub fn execute_action(
    config: &Config,
    tx: &mut crate::database::Transaction<'_>,
    user: &User,
    action: Action,
    body: &str,
) -> (r: Result<Outcome, StoreError>)
    ensures
        r matches Ok(o) ==> {
            &&& valid_status(o.status)
            &&& action_guarantee(config, user, action, body, o)
        },
        action_owed(user, action, body, r),
{
    match action {
        Action::Index => endpoints::handle_index(config, tx, user),
        Action::CreateTeam => endpoints::handle_create_team(config, tx, user, body),
        Action::DeleteTeam => endpoints::handle_delete_team(config, tx, user, body),
        Action::LeaveTeam => endpoints::handle_leave_team(config, tx, user, body),
        Action::JoinTeam => endpoints::handle_join_team(config, tx, user, body),
        Action::Vote => endpoints::handle_vote(config, tx, user, body),
        Action::PhasePrev => endpoints::handle_phase_prev(config, tx, user),
        Action::PhaseNext => endpoints::handle_phase_next(config, tx, user),
        Action::NotFound => Ok(not_found("Not found.")),
    }
}

/// Run one action as an atomic unit of work, retrying busy contention.
///
/// A returned outcome with a success-like status was committed; any
/// other returned outcome was rolled back, so the caller sees the
/// failure and the store keeps no partial writes. `Err` means the store
/// failed in a way retrying cannot help, and the session must be torn
/// down. Unlike `execute_action`, every path here opens a transaction
/// first, so even requests decided without data can fail with a store
/// error and the promises stay conditional on an outcome coming back.
pub fn with_transaction(
    config: &Config,
    session: &mut Session,
    user: &User,
    action: Action,
    body: &str,
) -> (r: Result<Outcome, StoreError>)
    ensures
        r matches Ok(o) ==> {
            &&& valid_status(o.status)
            &&& o.status != 503 ==> action_guarantee(config, user, action, body, o)
        },
{
    let mut attempt: u32 = 0;
    while attempt < MAX_ATTEMPTS
        invariant
            attempt <= MAX_ATTEMPTS,
        decreases MAX_ATTEMPTS - attempt,
    {
        let mut tx = session.begin()?;
        match execute_action(config, &mut tx, user, action, body) {
            Ok(outcome) => {
                // Commit on success-like statuses, redirects included;
                // anything else rolls back, and the caller still sees
                // the outcome.
                if outcome.status < 400 {
                    tx.commit()?;
                } else {
                    tx.rollback()?;
                }
                return Ok(outcome);
            },
            Err(e) => {
                if e.is_busy() {
                    // Another writer held the lock; retry the whole
                    // unit of work from scratch.
                    tx.rollback()?;
                } else {
                    // Try to roll back, but the session is done for
                    // either way.
                    let _ = tx.rollback();
                    return Err(e);
                }
            },
        }
        attempt = attempt + 1;
    }
    Ok(service_unavailable("The store is busy, wait a few seconds and try again."))
}

} // verus!
