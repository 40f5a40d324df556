//! The request handlers: one per action the dispatcher can route.
//!
//! Each handler runs inside one transaction-managed unit of work, takes
//! plain values, and returns an `Outcome` whose status decides whether
//! the transaction commits. Store failures come back as `Err` and end
//! the session.
use vstd::prelude::*;

verus! {

use vstd::string::StringExecFns;
use vstd::string::StringSliceAdditionalSpecFns;

use crate::User;
use crate::config::Config;
use crate::database::{StoreError, Transaction};
use crate::database;
use crate::form::{
    FormError, fold_create_team, fold_team_id, fold_vote_pairs, form_pairs_of, get_body_team_id,
    parse_create_team_form, parse_form, parse_vote_form,
};
use crate::numparse::i64_to_string;
use crate::outcome::{
    IndexData, Outcome, OutcomeBody, bad_request, conflict, forbidden, index_page,
    redirect_see_other,
};
use crate::phase::{Phase, load_phase};
use crate::rank::{
    SortMode, TeamData, TeamEntry, assign_ranks, ranks_consistent, reverse_entries,
    reverse_sorted_by, shuffle_key, shuffle_key_of, sort_entries, sorted_by, votes_total,
};
use crate::tally::{Decision, VoteError, decide_vote, sum_squares};
use crate::validate::{TextError, valid_text_seq, validate_string};

/// The reason a form field was refused, in words.
fn form_error_message(e: FormError) -> (r: &'static str) {
    match e {
        FormError::UnexpectedField => "Unexpected form field.",
        FormError::BadTeamId => "Invalid team id.",
        FormError::BadPoints => "You need to enter a number for every team.",
        FormError::MissingTeamId => "Need a team id.",
    }
}

/// The reason a piece of text was refused, in words, with the field
/// named by `label`.
fn text_error_message(label: &str, e: TextError) -> (r: String) {
    let mut message = label.to_owned();
    let suffix = match e {
        TextError::Empty => " must not be empty.",
        TextError::TooLong => " is too long.",
        TextError::ControlChar(_) => " may not contain control characters (including newlines).",
        TextError::InvalidChar(_) => " contains a character that is not allowed.",
    };
    message.append(suffix);
    message
}

/// The location of one team's anchor on the main page.
fn team_url(config: &Config, team_id: i64) -> (r: String)
    ensures
        r@ == config.server.prefix@ + "#team-"@ + crate::numparse::dec_str(team_id),
{
    let mut url = config.server.prefix.clone();
    url.append("#team-");
    let id_str = i64_to_string(team_id);
    url.append(id_str.as_str());
    proof {
        assert((config.server.prefix@ + "#team-"@) + crate::numparse::dec_str(team_id)
            =~= config.server.prefix@ + "#team-"@ + crate::numparse::dec_str(team_id));
    }
    url
}

/// Saturating signed addition, for totals read back from the store.
fn sat_add_i64(a: i64, b: i64) -> (r: i64)
    ensures
        r as int == crate::rank::spec_saturating_add(a as int, b as int),
{
    let s: i128 = (a as i128) + (b as i128);
    if s > i64::MAX as i128 {
        i64::MAX
    } else if s < i64::MIN as i128 {
        i64::MIN
    } else {
        s as i64
    }
}

/// Each entry carries the shuffle key of its own team for this voter.
pub open spec fn entries_shuffled(email: Seq<char>, s: Seq<TeamEntry>) -> bool {
    forall|i: int|
        0 <= i < s.len() ==> (#[trigger] s[i]).sort_key == shuffle_key_of(
            vstd::utf8::encode_utf8(email),
            s[i].team.id,
        )
}

/// What one displayed entry may hold, by phase: before the vote no
/// data at all; during the evaluation only the requesting voter's own
/// points; and once the outcome may be seen, every vote with a total
/// equal to their saturating sum. When the outcome may not be seen,
/// nothing is disclosed and the rank stays zero.
pub open spec fn entry_data_ok(can_see: bool, phase: Phase, e: TeamEntry) -> bool {
    match phase {
        Phase::Registration | Phase::Presentation => e.data is Hidden && e.total_points == 0
            && e.rank == 0,
        Phase::Evaluation => e.data is UserVote && e.total_points == 0 && e.rank == 0,
        Phase::Revelation | Phase::Celebration => if can_see {
            e.data matches TeamData::AllVotes { votes } && e.total_points as int == votes_total(
                votes@,
            )
        } else {
            e.data is Hidden && e.total_points == 0 && e.rank == 0
        },
    }
}

/// Build one team's entry: its members, the data the phase allows, the
/// total of its votes where the outcome may be seen, and the voter's
/// shuffle key during the evaluation phase.
fn build_entry(
    tx: &mut Transaction<'_>,
    user: &User,
    phase: Phase,
    can_see: bool,
    team: database::Team,
) -> (r: Result<TeamEntry, StoreError>)
    ensures
        r matches Ok(e) ==> {
            &&& entry_data_ok(can_see, phase, e)
            &&& phase == Phase::Evaluation ==> e.sort_key == shuffle_key_of(
                vstd::utf8::encode_utf8(user.email@),
                e.team.id,
            )
        },
{
    let member_emails = database::iter_team_members(tx, team.id)?;
    let mut total_points: i64 = 0;
    let data = match phase {
        Phase::Registration | Phase::Presentation => TeamData::Hidden,
        Phase::Evaluation => {
            let points = database::get_team_vote_for(tx, team.id, user.email.as_str())?;
            TeamData::UserVote {
                points: match points {
                    Some(p) => p,
                    None => 0,
                },
            }
        },
        Phase::Revelation | Phase::Celebration => {
            if can_see {
                let votes = database::iter_team_votes(tx, team.id)?;
                let m = votes.len();
                let mut j: usize = 0;
                proof {
                    assert(votes@.subrange(0, 0) =~= Seq::<database::Vote>::empty());
                }
                while j < m
                    invariant
                        m == votes@.len(),
                        j <= m,
                        total_points as int == votes_total(votes@.subrange(0, j as int)),
                    decreases m - j,
                {
                    proof {
                        let pre = votes@.subrange(0, j as int);
                        let post = votes@.subrange(0, j + 1 as int);
                        assert(post.drop_last() =~= pre);
                        assert(post.last() == votes@[j as int]);
                    }
                    total_points = sat_add_i64(total_points, votes[j].points);
                    j = j + 1;
                }
                proof {
                    assert(votes@.subrange(0, m as int) =~= votes@);
                }
                TeamData::AllVotes { votes }
            } else {
                TeamData::Hidden
            }
        },
    };
    let sort_key: u64 = match phase {
        Phase::Evaluation => shuffle_key(user.email.as_str(), team.id),
        _ => 0,
    };
    Ok(TeamEntry { team, member_emails, data, total_points, rank: 0, sort_key })
}

/// Render the main page's data: every team with its members, the data
/// the phase allows, and — once the outcome may be shown — totals and
/// dense ranks; during the evaluation phase the teams come in this
/// voter's own deterministic pseudo-random order. An outcome comes back
/// whenever the store answered, and it is always the 200 page.
pub fn handle_index(config: &Config, tx: &mut Transaction<'_>, user: &User) -> (r: Result<
    Outcome,
    StoreError,
>)
    ensures
        r matches Ok(o) ==> {
            &&& o.status == 200
            &&& o.body matches OutcomeBody::Index(d) && {
                &&& forall|i: int|
                    0 <= i < d.teams@.len() ==> entry_data_ok(
                        user.can_see_outcome(d.phase),
                        d.phase,
                        #[trigger] d.teams@[i],
                    )
                &&& (user.can_see_outcome(d.phase) ==> ranks_consistent(d.teams@))
                &&& (d.phase == Phase::Celebration ==> sorted_by(SortMode::Outcome, d.teams@))
                &&& (user.can_see_outcome(d.phase) && d.phase == Phase::Revelation
                    ==> reverse_sorted_by(SortMode::Outcome, d.teams@))
                &&& (d.phase == Phase::Evaluation ==> sorted_by(SortMode::Shuffle, d.teams@)
                    && entries_shuffled(user.email@, d.teams@))
            }
        },
{
    let phase = load_phase(tx)?;
    let can_see = user.can_see_outcome(phase);
    let mut teams = database::iter_teams(tx)?;
    let mut entries: Vec<TeamEntry> = Vec::new();
    let n = teams.len();
    let mut k: usize = 0;
    while k < n
        invariant
            n == teams@.len() + k,
            k <= n,
            can_see == user.can_see_outcome(phase),
            phase == Phase::Evaluation ==> entries_shuffled(user.email@, entries@),
            forall|i: int|
                0 <= i < entries@.len() ==> entry_data_ok(can_see, phase, #[trigger] entries@[i]),
        decreases n - k,
    {
        let team = teams.remove(0);
        let entry = build_entry(tx, user, phase, can_see, team)?;
        entries.push(entry);
        k = k + 1;
    }
    // During the evaluation phase, shuffle the teams deterministically
    // for this voter, so nobody is always listed first.
    if matches!(phase, Phase::Evaluation) {
        let ghost before = entries@;
        entries = sort_entries(SortMode::Shuffle, entries);
        proof {
            broadcast use vstd::seq_lib::group_to_multiset_ensures;

            assert forall|i: int| 0 <= i < entries@.len() implies (entry_data_ok(
                can_see,
                phase,
                #[trigger] entries@[i],
            ) && entries@[i].sort_key == shuffle_key_of(
                vstd::utf8::encode_utf8(user.email@),
                entries@[i].team.id,
            )) by {
                assert(entries@.to_multiset().contains(entries@[i])) by {
                    assert(entries@.contains(entries@[i]));
                }
                assert(before.to_multiset().contains(entries@[i]));
                assert(before.contains(entries@[i]));
                let w = choose|w: int| 0 <= w < before.len() && before[w] == entries@[i];
                assert(entry_data_ok(can_see, phase, before[w]));
                assert(before[w].sort_key == shuffle_key_of(
                    vstd::utf8::encode_utf8(user.email@),
                    before[w].team.id,
                ));
            }
        }
    }
    // Once the outcome may be shown, order by total points and assign
    // dense ranks; during the revelation ceremony the display order is
    // reversed so the admin can scroll down to reveal the next team.
    if can_see {
        if entries.len() >= 0xffff_ffffusize {
            // More teams than ranks can count; treat it like any other
            // store anomaly, as the row readers do.
            return Err(StoreError::Other(String::from_str("too many teams to rank")));
        }
        let ghost unsorted = entries@;
        entries = sort_entries(SortMode::Outcome, entries);
        proof {
            broadcast use vstd::seq_lib::group_to_multiset_ensures;

            assert forall|i: int| 0 <= i < entries@.len() implies entry_data_ok(
                can_see,
                phase,
                #[trigger] entries@[i],
            ) by {
                assert(entries@.to_multiset().contains(entries@[i])) by {
                    assert(entries@.contains(entries@[i]));
                }
                assert(unsorted.to_multiset().contains(entries@[i]));
                assert(unsorted.contains(entries@[i]));
                let w = choose|w: int| 0 <= w < unsorted.len() && unsorted[w] == entries@[i];
                assert(entry_data_ok(can_see, phase, unsorted[w]));
            }
        }
        let ghost sorted_totals = entries@;
        entries = assign_ranks(entries);
        proof {
            // Ranks do not touch data, totals or team ids, so both the
            // order by total points and the per-entry data survive.
            assert forall|i: int, j: int|
                0 <= i < j < entries@.len() implies crate::rank::entry_le(
                SortMode::Outcome,
                #[trigger] entries@[i],
                #[trigger] entries@[j],
            ) by {
                assert(entries@[i] == crate::rank::with_rank(sorted_totals[i], entries@[i].rank));
                assert(entries@[j] == crate::rank::with_rank(sorted_totals[j], entries@[j].rank));
                assert(crate::rank::entry_le(SortMode::Outcome, sorted_totals[i], sorted_totals[j]));
            }
            assert forall|i: int| 0 <= i < entries@.len() implies entry_data_ok(
                can_see,
                phase,
                #[trigger] entries@[i],
            ) by {
                assert(entries@[i] == crate::rank::with_rank(sorted_totals[i], entries@[i].rank));
                assert(entry_data_ok(can_see, phase, sorted_totals[i]));
            }
        }
        if matches!(phase, Phase::Revelation) {
            let ghost ranked = entries@;
            entries = reverse_entries(entries);
            proof {
                let n2 = entries@.len();
                assert forall|i: int, j: int|
                    0 <= i < entries@.len() && 0 <= j < entries@.len() implies
                    #[trigger] crate::rank::rank_pair_ok(entries@, i, j) by {
                    assert(entries@[i] == ranked[n2 - 1 - i]);
                    assert(entries@[j] == ranked[n2 - 1 - j]);
                    assert(crate::rank::rank_pair_ok(ranked, n2 - 1 - i, n2 - 1 - j));
                }
                assert forall|i: int, j: int| 0 <= i < j < n2 implies crate::rank::entry_le(
                    SortMode::Outcome,
                    #[trigger] entries@[j],
                    #[trigger] entries@[i],
                ) by {
                    assert(entries@[i] == ranked[n2 - 1 - i]);
                    assert(entries@[j] == ranked[n2 - 1 - j]);
                    assert(crate::rank::entry_le(
                        SortMode::Outcome,
                        ranked[n2 - 1 - j],
                        ranked[n2 - 1 - i],
                    ));
                }
                assert forall|i: int| 0 <= i < n2 implies entry_data_ok(
                    can_see,
                    phase,
                    #[trigger] entries@[i],
                ) by {
                    assert(entries@[i] == ranked[n2 - 1 - i]);
                    assert(entry_data_ok(can_see, phase, ranked[n2 - 1 - i]));
                }
            }
        }
    }
    let cheaters = database::iter_cheaters(tx)?;
    let voter_count = database::count_voters(tx)?;
    let data = IndexData { phase, teams: entries, cheaters, voter_count };
    Ok(index_page(data))
}

/// Create a team from the submitted form: the name and description are
/// validated, the creator becomes the sole initial member, and a name
/// already in use is refused.
pub fn handle_create_team(
    config: &Config,
    tx: &mut Transaction<'_>,
    user: &User,
    body: &str,
) -> (r: Result<Outcome, StoreError>)
    ensures
        r matches Ok(o) ==> {
            let f = fold_create_team(form_pairs_of(body.spec_bytes()), Seq::empty(), Seq::empty());
            &&& o.status == 303 || o.status == 400
            &&& f is Err ==> o.status == 400
            &&& f matches Ok(nd) ==> {
                &&& !valid_text_seq(65, nd.0) ==> o.status == 400
                &&& !valid_text_seq(120, nd.1) ==> o.status == 400
            }
        },
        ({
            // A form that fails decoding or validation is decided before
            // any store call, so the 400 outcome is owed outright.
            let f = fold_create_team(form_pairs_of(body.spec_bytes()), Seq::empty(), Seq::empty());
            (f is Err || (f matches Ok(nd) && (!valid_text_seq(65, nd.0) || !valid_text_seq(
                120,
                nd.1,
            )))) ==> (r matches Ok(o) && o.status == 400)
        }),
{
    let pairs = parse_form(body);
    let (team_name, description) = match parse_create_team_form(&pairs) {
        Ok(fields) => fields,
        Err(e) => {
            return Ok(bad_request(form_error_message(e)));
        },
    };
    if let Err(e) = validate_string(65, team_name.as_str()) {
        let message = text_error_message("The team name", e);
        return Ok(bad_request(message.as_str()));
    }
    if let Err(e) = validate_string(120, description.as_str()) {
        let message = text_error_message("The description", e);
        return Ok(bad_request(message.as_str()));
    }
    let n_teams_by_user = database::count_teams_by_creator(tx, user.email.as_str())?;
    if n_teams_by_user > config.app.max_teams_per_creator as i64 {
        return Ok(bad_request("You already created enough teams, chill out!"));
    }
    let team_id = match database::add_team(
        tx,
        team_name.as_str(),
        user.email.as_str(),
        description.as_str(),
    ) {
        Ok(id) => id,
        Err(StoreError::Constraint) => {
            return Ok(bad_request("A team with that name already exists."));
        },
        Err(e) => {
            return Err(e);
        },
    };
    // The user who creates the team is initially a member of it.
    database::add_team_member(tx, team_id, user.email.as_str())?;
    Ok(redirect_see_other(team_url(config, team_id)))
}

/// Delete a team: the caller leaves it first, and the deletion goes
/// through only if nobody else is left.
pub fn handle_delete_team(
    config: &Config,
    tx: &mut Transaction<'_>,
    user: &User,
    body: &str,
) -> (r: Result<Outcome, StoreError>)
    ensures
        r matches Ok(o) ==> o.status == 303 || o.status == 400 || o.status == 409,
        ({
            // A bad or missing team id is decided before any store call,
            // so the 400 outcome is owed outright.
            let f = fold_team_id(form_pairs_of(body.spec_bytes()), 0);
            (f is Err || f == Ok::<i64, FormError>(0)) ==> (r matches Ok(o) && o.status
                == 400)
        }),
{
    let pairs = parse_form(body);
    let team_id = match get_body_team_id(&pairs) {
        Ok(id) => id,
        Err(e) => {
            return Ok(bad_request(form_error_message(e)));
        },
    };
    // Remove ourselves from the team first.
    database::remove_team_member(tx, team_id, user.email.as_str())?;
    // Confirm that the team is now empty. An error status rolls the
    // removal back with everything else.
    let members = database::iter_team_members(tx, team_id)?;
    if members.len() > 0 {
        return Ok(conflict("The team is not empty, we can't delete it yet."));
    }
    database::delete_team(tx, team_id)?;
    Ok(redirect_see_other(config.server.prefix.clone()))
}

/// Leave a team, unless that would leave it empty: deleting is an
/// explicit action, never a side effect of leaving.
pub fn handle_leave_team(
    config: &Config,
    tx: &mut Transaction<'_>,
    user: &User,
    body: &str,
) -> (r: Result<Outcome, StoreError>)
    ensures
        r matches Ok(o) ==> o.status == 303 || o.status == 400 || o.status == 409,
        ({
            // A bad or missing team id is decided before any store call,
            // so the 400 outcome is owed outright.
            let f = fold_team_id(form_pairs_of(body.spec_bytes()), 0);
            (f is Err || f == Ok::<i64, FormError>(0)) ==> (r matches Ok(o) && o.status
                == 400)
        }),
{
    let pairs = parse_form(body);
    let team_id = match get_body_team_id(&pairs) {
        Ok(id) => id,
        Err(e) => {
            return Ok(bad_request(form_error_message(e)));
        },
    };
    database::remove_team_member(tx, team_id, user.email.as_str())?;
    let members = database::iter_team_members(tx, team_id)?;
    if members.len() == 0 {
        return Ok(
            conflict(
                "You are the last member; leaving would leave the team empty. If that is what you want, choose delete instead.",
            ),
        );
    }
    Ok(redirect_see_other(team_url(config, team_id)))
}

/// Join a team, provided it still exists — a team without members is
/// gone.
pub fn handle_join_team(
    config: &Config,
    tx: &mut Transaction<'_>,
    user: &User,
    body: &str,
) -> (r: Result<Outcome, StoreError>)
    ensures
        r matches Ok(o) ==> o.status == 303 || o.status == 400 || o.status == 409,
        ({
            // A bad or missing team id is decided before any store call,
            // so the 400 outcome is owed outright.
            let f = fold_team_id(form_pairs_of(body.spec_bytes()), 0);
            (f is Err || f == Ok::<i64, FormError>(0)) ==> (r matches Ok(o) && o.status
                == 400)
        }),
{
    let pairs = parse_form(body);
    let team_id = match get_body_team_id(&pairs) {
        Ok(id) => id,
        Err(e) => {
            return Ok(bad_request(form_error_message(e)));
        },
    };
    // Confirm that the team exists before we join it. For it to exist,
    // it must have members.
    let members = database::iter_team_members(tx, team_id)?;
    if members.len() == 0 {
        return Ok(
            conflict(
                "It looks like all team members have left this team before you joined. It no longer exists.",
            ),
        );
    }
    database::add_team_member(tx, team_id, user.email.as_str())?;
    Ok(redirect_see_other(team_url(config, team_id)))
}

/// Step the phase back one position; only the administrator may.
pub fn handle_phase_prev(config: &Config, tx: &mut Transaction<'_>, user: &User) -> (r: Result<
    Outcome,
    StoreError,
>)
    ensures
        r matches Ok(o) ==> {
            &&& !user.is_admin ==> o.status == 403
            &&& user.is_admin ==> o.status == 303
        },
        // The authorization check precedes any store call, so a
        // non-administrator is owed the 403 outcome outright.
        !user.is_admin ==> (r matches Ok(o) && o.status == 403),
{
    if !user.is_admin {
        return Ok(forbidden("Only the admin is allowed to change the phase."));
    }
    let current = load_phase(tx)?;
    database::set_current_phase(tx, current.prev().to_str())?;
    Ok(redirect_see_other(config.server.prefix.clone()))
}

/// Step the phase forward one position; only the administrator may.
pub fn handle_phase_next(config: &Config, tx: &mut Transaction<'_>, user: &User) -> (r: Result<
    Outcome,
    StoreError,
>)
    ensures
        r matches Ok(o) ==> {
            &&& !user.is_admin ==> o.status == 403
            &&& user.is_admin ==> o.status == 303
        },
        // The authorization check precedes any store call, so a
        // non-administrator is owed the 403 outcome outright.
        !user.is_admin ==> (r matches Ok(o) && o.status == 403),
{
    if !user.is_admin {
        return Ok(forbidden("Only the admin is allowed to change the phase."));
    }
    let current = load_phase(tx)?;
    database::set_current_phase(tx, current.next().to_str())?;
    Ok(redirect_see_other(config.server.prefix.clone()))
}

/// Store a vote submission, replacing the voter's previous votes.
///
/// The decision of what is stored is pure: the form is decoded into a
/// team-to-points mapping, the quadratic cost is checked against the
/// budget, values for the voter's own teams are zeroed (flagging the
/// voter), and any other negative value is rejected. Only an accepted
/// submission touches the store.
pub fn handle_vote(config: &Config, tx: &mut Transaction<'_>, user: &User, body: &str) -> (r:
    Result<Outcome, StoreError>)
    ensures
        r matches Ok(o) ==> {
            let f = fold_vote_pairs(form_pairs_of(body.spec_bytes()), Seq::empty());
            &&& o.status == 303 || o.status == 400
            &&& f is Err ==> o.status == 400
            &&& f matches Ok(sub) ==> {
                &&& sum_squares(sub) > i64::MAX ==> o.status == 400
                &&& (sum_squares(sub) <= i64::MAX && sum_squares(sub)
                    > config.app.coins_to_spend) ==> o.status == 400
                &&& (sum_squares(sub) <= config.app.coins_to_spend && (forall|i: int|
                    0 <= i < sub.len() ==> (#[trigger] sub[i]).1 >= 0)) ==> o.status == 303
            }
        },
        // A body that does not decode to a vote mapping is decided
        // before any store call, so the 400 outcome is owed outright.
        fold_vote_pairs(form_pairs_of(body.spec_bytes()), Seq::empty()) is Err ==> (r matches Ok(
            o,
        ) && o.status == 400),
{
    let pairs = parse_form(body);
    let submission = match parse_vote_form(&pairs) {
        Ok(sub) => sub,
        Err(e) => {
            return Ok(bad_request(form_error_message(e)));
        },
    };
    let members = database::iter_member_teams(tx, user.email.as_str())?;
    let budget = config.app.coins_to_spend as i64;
    match decide_vote(&submission, &members, budget) {
        Decision::Reject(VoteError::Overflow) => Ok(
            bad_request("Overflowing a 64-bit integer? Nice try, but no."),
        ),
        Decision::Reject(VoteError::OverBudget) => Ok(
            bad_request("You tried to spend more coins than you have."),
        ),
        Decision::Reject(VoteError::NegativePoints) => Ok(
            bad_request(
                "Spending coins on negative points would only destroy somebody's reputation; vote for a different team instead.",
            ),
        ),
        Decision::Accept { rows, cheated } => {
            // The anti-cheat pass runs before anything is stored, so a
            // self-vote can never land as a positive contribution.
            if cheated {
                database::set_cheater(tx, user.email.as_str())?;
            }
            // Clear out any old votes: a submission replaces, never
            // merges.
            database::delete_votes_for_voter(tx, user.email.as_str())?;
            let m = rows.len();
            let mut j: usize = 0;
            while j < m
                invariant
                    m == rows@.len(),
                    j <= m,
                    fold_vote_pairs(form_pairs_of(body.spec_bytes()), Seq::empty()) is Ok,
                decreases m - j,
            {
                database::insert_vote(tx, user.email.as_str(), rows[j].0, rows[j].1)?;
                j = j + 1;
            }
            let mut url = config.server.prefix.clone();
            url.append("#your-vote");
            Ok(redirect_see_other(url))
        },
    }
}

} // verus!
