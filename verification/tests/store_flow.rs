//! End-to-end tests against a real SQLite store: the transaction
//! runner's commit/rollback/retry behavior, vote persistence, the
//! cheater flag, and the phase record.
use hackomatic::User;
use hackomatic::config::{AppConfig, Config, DatabaseConfig, DebugConfig, ServerConfig};
use hackomatic::database::{self, Session};
use hackomatic::outcome::{Outcome, OutcomeBody};
use hackomatic::phase::{Phase, load_phase};
use hackomatic::runner::{Action, with_transaction};

fn config_for_store_tests() -> Config {
    Config {
        app: AppConfig {
            admin_email: "admin@example.com".to_string(),
            email_suffix: "@example.com".to_string(),
            max_teams_per_creator: 10,
            coins_to_spend: 100,
        },
        debug: DebugConfig { unsafe_default_email: None },
        server: ServerConfig {
            listen: "127.0.0.1:0".to_string(),
            prefix: "/hack".to_string(),
            num_threads: 1,
        },
        database: DatabaseConfig { path: ":memory:".to_string() },
    }
}

/// A fresh store under /tmp; any tables from an earlier run are
/// dropped first.
fn fresh_session(path: &str) -> Session {
    let conn = sqlite::open(path).expect("failed to open the store");
    conn.execute(
        "drop table if exists votes;\
         drop table if exists team_memberships;\
         drop table if exists teams;\
         drop table if exists cheaters;\
         drop table if exists current_phase;",
    )
    .expect("failed to clear the store");
    database::init_database(conn).expect("failed to initialize the store")
}

fn user(email: &str, is_admin: bool) -> User {
    User { email: email.to_string(), is_admin }
}

fn status_of(outcome: &Outcome) -> u16 {
    outcome.status
}

/// Run one action and return its status code.
fn run(config: &Config, session: &mut Session, who: &User, action: Action, body: &str) -> u16 {
    let outcome = with_transaction(config, session, who, action, body)
        .expect("the store failed fatally");
    status_of(&outcome)
}

fn team_id_by_name(session: &mut Session, name: &str) -> i64 {
    let mut tx = session.begin().unwrap();
    let teams = database::iter_teams(&mut tx).unwrap();
    tx.rollback().unwrap();
    for t in teams {
        if t.name == name {
            return t.id;
        }
    }
    panic!("no team named {}", name);
}

fn vote_for(session: &mut Session, team_id: i64, email: &str) -> Option<i64> {
    let mut tx = session.begin().unwrap();
    let points = database::get_team_vote_for(&mut tx, team_id, email).unwrap();
    tx.rollback().unwrap();
    points
}

fn cheater_list(session: &mut Session) -> Vec<String> {
    let mut tx = session.begin().unwrap();
    let cheaters = database::iter_cheaters(&mut tx).unwrap();
    tx.rollback().unwrap();
    cheaters
}

fn current_phase(session: &mut Session) -> Phase {
    let mut tx = session.begin().unwrap();
    let phase = load_phase(&mut tx).unwrap();
    tx.rollback().unwrap();
    phase
}

#[test]
fn phase_names_roundtrip() {
    let phases = [
        Phase::Registration,
        Phase::Presentation,
        Phase::Evaluation,
        Phase::Revelation,
        Phase::Celebration,
    ];
    for p in phases {
        assert_eq!(Phase::from_str(p.to_str()), Some(p));
    }
    assert_eq!(Phase::from_str("intermission"), None);
}

#[test]
fn within_budget_vote_is_stored_and_over_budget_vote_rolls_back() {
    let config = config_for_store_tests();
    let mut session = fresh_session("/tmp/hackomatic_test_budget.db");
    let alice = user("alice@example.com", false);
    let bob = user("bob@example.com", false);
    assert_eq!(
        run(&config, &mut session, &alice, Action::CreateTeam, "team-name=Alpha&description=A"),
        303
    );
    assert_eq!(
        run(&config, &mut session, &alice, Action::CreateTeam, "team-name=Beta&description=B"),
        303
    );
    let a = team_id_by_name(&mut session, "Alpha");
    let b = team_id_by_name(&mut session, "Beta");
    // Budget 100 coins: 7 and 7 points cost 49 + 49 = 98, accepted.
    let body = format!("team-{}=7&team-{}=7", a, b);
    assert_eq!(run(&config, &mut session, &bob, Action::Vote, &body), 303);
    assert_eq!(vote_for(&mut session, a, "bob@example.com"), Some(7));
    assert_eq!(vote_for(&mut session, b, "bob@example.com"), Some(7));
    // 8 and 8 points cost 64 + 64 = 128 > 100: rejected, and the
    // earlier votes survive because the unit of work rolls back.
    let body = format!("team-{}=8&team-{}=8", a, b);
    assert_eq!(run(&config, &mut session, &bob, Action::Vote, &body), 400);
    assert_eq!(vote_for(&mut session, a, "bob@example.com"), Some(7));
    assert_eq!(vote_for(&mut session, b, "bob@example.com"), Some(7));
}

#[test]
fn resubmission_replaces_previous_votes() {
    let config = config_for_store_tests();
    let mut session = fresh_session("/tmp/hackomatic_test_resubmit.db");
    let alice = user("alice@example.com", false);
    let bob = user("bob@example.com", false);
    assert_eq!(
        run(&config, &mut session, &alice, Action::CreateTeam, "team-name=Alpha&description=A"),
        303
    );
    assert_eq!(
        run(&config, &mut session, &alice, Action::CreateTeam, "team-name=Beta&description=B"),
        303
    );
    let a = team_id_by_name(&mut session, "Alpha");
    let b = team_id_by_name(&mut session, "Beta");
    let body = format!("team-{}=3&team-{}=2", a, b);
    assert_eq!(run(&config, &mut session, &bob, Action::Vote, &body), 303);
    // The second submission names only one team; the other team's row
    // disappears rather than being merged.
    let body = format!("team-{}=1", a);
    assert_eq!(run(&config, &mut session, &bob, Action::Vote, &body), 303);
    assert_eq!(vote_for(&mut session, a, "bob@example.com"), Some(1));
    assert_eq!(vote_for(&mut session, b, "bob@example.com"), None);
    // Zero-value votes are not stored at all.
    let body = format!("team-{}=0", a);
    assert_eq!(run(&config, &mut session, &bob, Action::Vote, &body), 303);
    assert_eq!(vote_for(&mut session, a, "bob@example.com"), None);
}

#[test]
fn self_vote_is_neutralized_and_flags_the_voter_permanently() {
    let config = config_for_store_tests();
    let mut session = fresh_session("/tmp/hackomatic_test_cheat.db");
    let alice = user("alice@example.com", false);
    assert_eq!(
        run(&config, &mut session, &alice, Action::CreateTeam, "team-name=Alpha&description=A"),
        303
    );
    let a = team_id_by_name(&mut session, "Alpha");
    // Alice is a member of Alpha and gives herself 5 points: the value
    // is never stored as a positive contribution, and she is flagged.
    let body = format!("team-{}=5", a);
    assert_eq!(run(&config, &mut session, &alice, Action::Vote, &body), 303);
    let stored = vote_for(&mut session, a, "alice@example.com");
    assert!(stored == None || stored == Some(0));
    assert_eq!(cheater_list(&mut session), vec!["alice@example.com".to_string()]);
    // Flagging again leaves the flag set, once: no un-cheat, no
    // duplicate.
    assert_eq!(run(&config, &mut session, &alice, Action::Vote, &body), 303);
    assert_eq!(cheater_list(&mut session), vec!["alice@example.com".to_string()]);
}

#[test]
fn create_team_enforces_validation_and_uniqueness() {
    let config = config_for_store_tests();
    let mut session = fresh_session("/tmp/hackomatic_test_create.db");
    let alice = user("alice@example.com", false);
    assert_eq!(
        run(&config, &mut session, &alice, Action::CreateTeam, "team-name=Alpha&description=A"),
        303
    );
    // A second team with the same name violates uniqueness.
    assert_eq!(
        run(&config, &mut session, &alice, Action::CreateTeam, "team-name=Alpha&description=B"),
        400
    );
    // Empty names and control characters are refused outright.
    assert_eq!(
        run(&config, &mut session, &alice, Action::CreateTeam, "team-name=&description=B"),
        400
    );
    assert_eq!(
        run(&config, &mut session, &alice, Action::CreateTeam, "team-name=a%0Ab&description=B"),
        400
    );
    assert_eq!(
        run(&config, &mut session, &alice, Action::CreateTeam, "bogus=1"),
        400
    );
}

#[test]
fn join_leave_delete_respect_membership_rules() {
    let config = config_for_store_tests();
    let mut session = fresh_session("/tmp/hackomatic_test_membership.db");
    let alice = user("alice@example.com", false);
    let bob = user("bob@example.com", false);
    assert_eq!(
        run(&config, &mut session, &alice, Action::CreateTeam, "team-name=Alpha&description=A"),
        303
    );
    let a = team_id_by_name(&mut session, "Alpha");
    let body = format!("team-id={}", a);
    // Bob joins; Alice can now leave without emptying the team.
    assert_eq!(run(&config, &mut session, &bob, Action::JoinTeam, &body), 303);
    assert_eq!(run(&config, &mut session, &alice, Action::LeaveTeam, &body), 303);
    // Bob is the last member: leaving would empty the team, which only
    // an explicit delete may do.
    assert_eq!(run(&config, &mut session, &bob, Action::LeaveTeam, &body), 409);
    assert_eq!(run(&config, &mut session, &bob, Action::DeleteTeam, &body), 303);
    // The team is gone, so joining it reports a conflict.
    assert_eq!(run(&config, &mut session, &bob, Action::JoinTeam, &body), 409);
    // A missing team id is rejected before touching the store.
    assert_eq!(run(&config, &mut session, &bob, Action::JoinTeam, "team-id=0"), 400);
}

#[test]
fn phase_advances_one_step_at_a_time_and_saturates() {
    let config = config_for_store_tests();
    let mut session = fresh_session("/tmp/hackomatic_test_phase.db");
    let admin = user("admin@example.com", true);
    let bob = user("bob@example.com", false);
    assert_eq!(current_phase(&mut session), Phase::Registration);
    // Retreating from the initial phase is a no-op.
    assert_eq!(run(&config, &mut session, &admin, Action::PhasePrev, ""), 303);
    assert_eq!(current_phase(&mut session), Phase::Registration);
    // Five advances walk the whole sequence; the last one is a no-op.
    let expected = [
        Phase::Presentation,
        Phase::Evaluation,
        Phase::Revelation,
        Phase::Celebration,
        Phase::Celebration,
    ];
    for want in expected {
        assert_eq!(run(&config, &mut session, &admin, Action::PhaseNext, ""), 303);
        assert_eq!(current_phase(&mut session), want);
    }
    // Only the administrator may change the phase.
    assert_eq!(run(&config, &mut session, &bob, Action::PhaseNext, ""), 403);
    assert_eq!(current_phase(&mut session), Phase::Celebration);
}

#[test]
fn index_shows_ranks_only_when_the_outcome_may_be_seen() {
    let config = config_for_store_tests();
    let mut session = fresh_session("/tmp/hackomatic_test_index.db");
    let admin = user("admin@example.com", true);
    let alice = user("alice@example.com", false);
    let bob = user("bob@example.com", false);
    let carol = user("carol@example.com", false);
    assert_eq!(
        run(&config, &mut session, &alice, Action::CreateTeam, "team-name=Alpha&description=A"),
        303
    );
    assert_eq!(
        run(&config, &mut session, &bob, Action::CreateTeam, "team-name=Beta&description=B"),
        303
    );
    let a = team_id_by_name(&mut session, "Alpha");
    let b = team_id_by_name(&mut session, "Beta");
    let body = format!("team-{}=6&team-{}=3", a, b);
    assert_eq!(run(&config, &mut session, &carol, Action::Vote, &body), 303);
    // Walk to the celebration phase, where everyone sees the outcome.
    for _ in 0..4 {
        assert_eq!(run(&config, &mut session, &admin, Action::PhaseNext, ""), 303);
    }
    let outcome = with_transaction(&config, &mut session, &carol, Action::Index, "").unwrap();
    assert_eq!(outcome.status, 200);
    match outcome.body {
        OutcomeBody::Index(data) => {
            assert_eq!(data.phase, Phase::Celebration);
            assert_eq!(data.voter_count, 1);
            assert_eq!(data.teams.len(), 2);
            // Alpha has 6 points and rank 1; Beta has 3 and rank 2.
            assert_eq!(data.teams[0].team.id, a);
            assert_eq!(data.teams[0].total_points, 6);
            assert_eq!(data.teams[0].rank, 1);
            assert_eq!(data.teams[1].team.id, b);
            assert_eq!(data.teams[1].total_points, 3);
            assert_eq!(data.teams[1].rank, 2);
        }
        _ => panic!("the index action did not return index data"),
    }
}

#[test]
fn index_during_evaluation_shows_own_votes_but_no_totals() {
    let config = config_for_store_tests();
    let mut session = fresh_session("/tmp/hackomatic_test_eval_index.db");
    let admin = user("admin@example.com", true);
    let alice = user("alice@example.com", false);
    let carol = user("carol@example.com", false);
    assert_eq!(
        run(&config, &mut session, &alice, Action::CreateTeam, "team-name=Alpha&description=A"),
        303
    );
    assert_eq!(
        run(&config, &mut session, &alice, Action::CreateTeam, "team-name=Beta&description=B"),
        303
    );
    let a = team_id_by_name(&mut session, "Alpha");
    let b = team_id_by_name(&mut session, "Beta");
    // Walk to the evaluation phase and vote.
    assert_eq!(run(&config, &mut session, &admin, Action::PhaseNext, ""), 303);
    assert_eq!(run(&config, &mut session, &admin, Action::PhaseNext, ""), 303);
    let body = format!("team-{}=6&team-{}=3", a, b);
    assert_eq!(run(&config, &mut session, &carol, Action::Vote, &body), 303);
    let outcome = with_transaction(&config, &mut session, &carol, Action::Index, "").unwrap();
    assert_eq!(outcome.status, 200);
    match outcome.body {
        OutcomeBody::Index(data) => {
            assert_eq!(data.phase, Phase::Evaluation);
            // Carol sees her own points per team, and no ranks yet.
            let mut seen = Vec::new();
            for entry in &data.teams {
                assert_eq!(entry.rank, 0);
                match &entry.data {
                    hackomatic::rank::TeamData::UserVote { points } => {
                        seen.push((entry.team.id, *points));
                    }
                    _ => panic!("evaluation phase should carry the voter's own points"),
                }
            }
            seen.sort();
            assert_eq!(seen, vec![(a, 6), (b, 3)]);
        }
        _ => panic!("the index action did not return index data"),
    }
}

#[test]
fn second_writer_sees_busy_and_the_runner_retries_to_unavailable() {
    let config = config_for_store_tests();
    let path = "/tmp/hackomatic_test_busy.db";
    let mut session = fresh_session(path);
    let alice = user("alice@example.com", false);
    // A second connection takes the write lock and holds it.
    let blocker = sqlite::open(path).unwrap();
    blocker.execute("BEGIN IMMEDIATE;").unwrap();
    // Every attempt of the unit of work hits the busy condition, so
    // the bounded retry ends in a service-unavailable outcome and no
    // partial write.
    assert_eq!(
        run(&config, &mut session, &alice, Action::CreateTeam, "team-name=Alpha&description=A"),
        503
    );
    // Once the lock is released the same request goes through, and a
    // subsequent read observes the committed data.
    blocker.execute("COMMIT;").unwrap();
    assert_eq!(
        run(&config, &mut session, &alice, Action::CreateTeam, "team-name=Alpha&description=A"),
        303
    );
    let a = team_id_by_name(&mut session, "Alpha");
    assert!(a > 0);
}
