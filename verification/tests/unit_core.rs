//! Tests of the pure core: parsing, validation, the tally decision,
//! and the ordering and ranking of teams.
use hackomatic::config::{AppConfig, Config, DatabaseConfig, DebugConfig, ServerConfig};
use hackomatic::form::{
    FormError, get_body_team_id, parse_create_team_form, parse_form, parse_vote_form, trim_blanks,
};
use hackomatic::numparse::{i64_to_string, parse_i64};
use hackomatic::rank::{SortMode, TeamData, TeamEntry, assign_ranks, reverse_entries, shuffle_key,
    sort_entries};
use hackomatic::database::Team;
use hackomatic::phase::{Phase, phase_from_stored};
use hackomatic::tally::{Decision, VoteError, decide_vote, get_coins_spent, max_points_for_budget};
use hackomatic::validate::{TextError, validate_string, view_email};

fn config_for_unit_tests() -> Config {
    Config {
        app: AppConfig {
            admin_email: "admin@example.com".to_string(),
            email_suffix: "@example.com".to_string(),
            max_teams_per_creator: 10,
            coins_to_spend: 100,
        },
        debug: DebugConfig { unsafe_default_email: None },
        server: ServerConfig {
            listen: "127.0.0.1:0".to_string(),
            prefix: "/hack".to_string(),
            num_threads: 1,
        },
        database: DatabaseConfig { path: ":memory:".to_string() },
    }
}

#[test]
fn parse_i64_accepts_plain_numbers() {
    assert_eq!(parse_i64("0"), Some(0));
    assert_eq!(parse_i64("123"), Some(123));
    assert_eq!(parse_i64("-5"), Some(-5));
    assert_eq!(parse_i64("+7"), Some(7));
    assert_eq!(parse_i64("007"), Some(7));
    assert_eq!(parse_i64("-0"), Some(0));
}

#[test]
fn parse_i64_rejects_junk() {
    assert_eq!(parse_i64(""), None);
    assert_eq!(parse_i64("+"), None);
    assert_eq!(parse_i64("-"), None);
    assert_eq!(parse_i64("12a"), None);
    assert_eq!(parse_i64(" 12"), None);
    assert_eq!(parse_i64("1.5"), None);
}

#[test]
fn parse_i64_handles_the_64_bit_range() {
    assert_eq!(parse_i64("9223372036854775807"), Some(i64::MAX));
    assert_eq!(parse_i64("9223372036854775808"), None);
    assert_eq!(parse_i64("-9223372036854775808"), Some(i64::MIN));
    assert_eq!(parse_i64("-9223372036854775809"), None);
    assert_eq!(parse_i64("00000000000000000000000009"), Some(9));
    assert_eq!(parse_i64("100000000000000000000000000"), None);
}

#[test]
fn i64_to_string_renders_canonical_decimals() {
    assert_eq!(i64_to_string(0).as_str(), "0");
    assert_eq!(i64_to_string(42).as_str(), "42");
    assert_eq!(i64_to_string(-17).as_str(), "-17");
    assert_eq!(i64_to_string(i64::MAX).as_str(), "9223372036854775807");
    assert_eq!(i64_to_string(i64::MIN).as_str(), "-9223372036854775808");
}

#[test]
fn validate_string_checks_length_and_charset() {
    assert_eq!(validate_string(65, "A fine team name"), Ok(()));
    assert_eq!(validate_string(65, "Tomás and Mikołaj"), Ok(()));
    assert_eq!(validate_string(65, ""), Err(TextError::Empty));
    let long = "x".repeat(66);
    assert_eq!(validate_string(65, &long), Err(TextError::TooLong));
    assert_eq!(validate_string(65, "a\nb"), Err(TextError::ControlChar('\n')));
    assert_eq!(validate_string(65, "nope \u{2713}"), Err(TextError::InvalidChar('\u{2713}')));
    // General punctuation is allowed even though it is above Arabic.
    assert_eq!(validate_string(65, "dots \u{2026}"), Ok(()));
}

#[test]
fn view_email_strips_the_configured_suffix() {
    let config = config_for_unit_tests();
    assert_eq!(view_email(&config, "bob@example.com"), "bob");
    assert_eq!(view_email(&config, "bob@elsewhere.org"), "bob@elsewhere.org");
    assert_eq!(view_email(&config, "@example.com"), "");
}

#[test]
fn trim_blanks_strips_both_ends() {
    assert_eq!(trim_blanks(" a b ").as_str(), "a b");
    assert_eq!(trim_blanks("\t x\r\n").as_str(), "x");
    assert_eq!(trim_blanks("").as_str(), "");
    assert_eq!(trim_blanks("   ").as_str(), "");
}

#[test]
fn trim_blanks_strips_unicode_white_space() {
    // str::trim's full White_Space set: en-quad, ideographic space,
    // no-break space and friends are stripped too.
    assert_eq!(trim_blanks("\u{2000}x\u{3000}").as_str(), "x");
    assert_eq!(trim_blanks("\u{a0}\u{85}y\u{202f}").as_str(), "y");
    assert_eq!(trim_blanks("\u{1680}\u{2028}\u{2029}").as_str(), "");
    // Interior white space stays.
    assert_eq!(trim_blanks(" a\u{2003}b ").as_str(), "a\u{2003}b");
}

#[test]
fn stored_phase_value_folds_with_registration_default() {
    assert_eq!(phase_from_stored(&Some("evaluation".to_string())), Phase::Evaluation);
    assert_eq!(phase_from_stored(&Some("celebration".to_string())), Phase::Celebration);
    assert_eq!(phase_from_stored(&Some("intermission".to_string())), Phase::Registration);
    assert_eq!(phase_from_stored(&Some("".to_string())), Phase::Registration);
    assert_eq!(phase_from_stored(&None), Phase::Registration);
}

#[test]
fn vote_form_decodes_to_a_mapping() {
    let pairs = parse_form("team-1=5&team-2=7");
    let mapping = parse_vote_form(&pairs).unwrap();
    assert_eq!(mapping, vec![(1, 5), (2, 7)]);
}

#[test]
fn vote_form_resubmitted_key_replaces_not_merges() {
    let pairs = parse_form("team-1=5&team-1=7");
    let mapping = parse_vote_form(&pairs).unwrap();
    assert_eq!(mapping, vec![(1, 7)]);
}

#[test]
fn vote_form_rejects_bad_fields() {
    let pairs = parse_form("other=5");
    assert_eq!(parse_vote_form(&pairs), Err(FormError::UnexpectedField));
    let pairs = parse_form("team-x=5");
    assert_eq!(parse_vote_form(&pairs), Err(FormError::BadTeamId));
    let pairs = parse_form("team-1=abc");
    assert_eq!(parse_vote_form(&pairs), Err(FormError::BadPoints));
}

#[test]
fn team_id_form_wants_exactly_one_team() {
    let pairs = parse_form("team-id=3");
    assert_eq!(get_body_team_id(&pairs), Ok(3));
    let pairs = parse_form("team-id=0");
    assert_eq!(get_body_team_id(&pairs), Err(FormError::MissingTeamId));
    let pairs = parse_form("");
    assert_eq!(get_body_team_id(&pairs), Err(FormError::MissingTeamId));
    let pairs = parse_form("team-id=abc");
    assert_eq!(get_body_team_id(&pairs), Err(FormError::BadTeamId));
    let pairs = parse_form("other=1");
    assert_eq!(get_body_team_id(&pairs), Err(FormError::UnexpectedField));
}

#[test]
fn create_team_form_trims_and_decodes() {
    let pairs = parse_form("team-name=+The+Team+&description=Builds+things");
    let (name, description) = parse_create_team_form(&pairs).unwrap();
    assert_eq!(name.as_str(), "The Team");
    assert_eq!(description.as_str(), "Builds things");
}

#[test]
fn coins_spent_is_the_sum_of_squares() {
    assert_eq!(get_coins_spent(&vec![]), Some(0));
    assert_eq!(get_coins_spent(&vec![(1, 7), (2, 7)]), Some(98));
    assert_eq!(get_coins_spent(&vec![(1, -3)]), Some(9));
    assert_eq!(get_coins_spent(&vec![(1, 3037000499)]), Some(3037000499 * 3037000499));
    // 3037000500^2 exceeds the signed 64-bit range.
    assert_eq!(get_coins_spent(&vec![(1, 3037000500)]), None);
    assert_eq!(get_coins_spent(&vec![(1, 3000000000), (2, 3000000000)]), None);
}

#[test]
fn vote_decision_accepts_within_budget() {
    // Budget 100: 49 + 49 = 98 coins is fine.
    match decide_vote(&vec![(1, 7), (2, 7)], &vec![], 100) {
        Decision::Accept { rows, cheated } => {
            assert_eq!(rows, vec![(1, 7), (2, 7)]);
            assert!(!cheated);
        }
        Decision::Reject(e) => panic!("rejected: {:?}", e),
    }
}

#[test]
fn vote_decision_rejects_over_budget() {
    // Budget 100: 64 + 64 = 128 coins is too much.
    match decide_vote(&vec![(1, 8), (2, 8)], &vec![], 100) {
        Decision::Reject(e) => assert_eq!(e, VoteError::OverBudget),
        Decision::Accept { .. } => panic!("accepted an over-budget vote"),
    }
}

#[test]
fn vote_decision_rejects_overflow_instead_of_clamping() {
    match decide_vote(&vec![(1, 4000000000)], &vec![], 100) {
        Decision::Reject(e) => assert_eq!(e, VoteError::Overflow),
        Decision::Accept { .. } => panic!("accepted an overflowing vote"),
    }
}

#[test]
fn vote_decision_neutralizes_self_votes_and_flags() {
    // The voter belongs to team 1 and tries to give it points.
    match decide_vote(&vec![(1, 5)], &vec![1], 100) {
        Decision::Accept { rows, cheated } => {
            assert_eq!(rows, vec![]);
            assert!(cheated);
        }
        Decision::Reject(e) => panic!("rejected: {:?}", e),
    }
}

#[test]
fn vote_decision_zero_for_own_team_is_no_cheat() {
    match decide_vote(&vec![(1, 0), (2, 3)], &vec![1], 100) {
        Decision::Accept { rows, cheated } => {
            assert_eq!(rows, vec![(2, 3)]);
            assert!(!cheated);
        }
        Decision::Reject(e) => panic!("rejected: {:?}", e),
    }
}

#[test]
fn vote_decision_rejects_negative_points_for_other_teams() {
    match decide_vote(&vec![(2, -3)], &vec![1], 100) {
        Decision::Reject(e) => assert_eq!(e, VoteError::NegativePoints),
        Decision::Accept { .. } => panic!("accepted negative points"),
    }
}

#[test]
fn vote_decision_negative_self_vote_is_neutralized_not_rejected() {
    match decide_vote(&vec![(1, -3)], &vec![1], 100) {
        Decision::Accept { rows, cheated } => {
            assert_eq!(rows, vec![]);
            assert!(cheated);
        }
        Decision::Reject(e) => panic!("rejected: {:?}", e),
    }
}

#[test]
fn vote_decision_budget_counts_pre_neutralized_values() {
    // 8^2 + 8^2 = 128 > 100 even though one entry would be zeroed.
    match decide_vote(&vec![(1, 8), (2, 8)], &vec![1], 100) {
        Decision::Reject(e) => assert_eq!(e, VoteError::OverBudget),
        Decision::Accept { .. } => panic!("accepted an over-budget vote"),
    }
}

#[test]
fn max_points_is_the_square_root_of_the_budget() {
    assert_eq!(max_points_for_budget(100), 10);
    assert_eq!(max_points_for_budget(99), 9);
    assert_eq!(max_points_for_budget(1), 1);
    assert_eq!(max_points_for_budget(0), 0);
    assert_eq!(max_points_for_budget(u32::MAX), 65535);
}

fn entry_for_rank_tests(id: i64, total: i64, key: u64) -> TeamEntry {
    TeamEntry {
        team: Team {
            id,
            name: format!("team {}", id),
            creator_email: "x@example.com".to_string(),
            description: "d".to_string(),
        },
        member_emails: vec![],
        data: TeamData::Hidden,
        total_points: total,
        rank: 0,
        sort_key: key,
    }
}

#[test]
fn ranks_are_dense_and_tie_aware() {
    let entries = vec![
        entry_for_rank_tests(3, 5, 0),
        entry_for_rank_tests(2, 10, 0),
        entry_for_rank_tests(1, 10, 0),
    ];
    let sorted = sort_entries(SortMode::Outcome, entries);
    let ids: Vec<i64> = sorted.iter().map(|e| e.team.id).collect();
    assert_eq!(ids, vec![1, 2, 3]);
    let ranked = assign_ranks(sorted);
    let ranks: Vec<u32> = ranked.iter().map(|e| e.rank).collect();
    assert_eq!(ranks, vec![1, 1, 2]);
    // Equal totals share a rank; a higher total outranks a lower one.
    assert_eq!(ranked[0].total_points, ranked[1].total_points);
    assert!(ranked[1].total_points > ranked[2].total_points);
    assert!(ranked[1].rank < ranked[2].rank);
}

#[test]
fn reversal_keeps_rank_numbers() {
    let entries = vec![entry_for_rank_tests(1, 10, 0), entry_for_rank_tests(2, 5, 0)];
    let sorted = sort_entries(SortMode::Outcome, entries);
    let ranked = assign_ranks(sorted);
    let reversed = reverse_entries(ranked);
    assert_eq!(reversed[0].team.id, 2);
    assert_eq!(reversed[0].rank, 2);
    assert_eq!(reversed[1].team.id, 1);
    assert_eq!(reversed[1].rank, 1);
}

#[test]
fn shuffle_key_is_deterministic_per_voter() {
    let a1 = shuffle_key("alice@example.com", 1);
    let a2 = shuffle_key("alice@example.com", 1);
    assert_eq!(a1, a2);
    let b1 = shuffle_key("bob@example.com", 1);
    assert_ne!(a1, b1);
    assert_ne!(shuffle_key("alice@example.com", 2), a1);
}

#[test]
fn shuffle_order_is_stable_across_calls_and_differs_per_voter() {
    let build = |email: &str| -> Vec<i64> {
        let entries: Vec<TeamEntry> = (1..=8)
            .map(|id| entry_for_rank_tests(id, 0, shuffle_key(email, id)))
            .collect();
        sort_entries(SortMode::Shuffle, entries).iter().map(|e| e.team.id).collect()
    };
    let alice_once = build("alice@example.com");
    let alice_again = build("alice@example.com");
    assert_eq!(alice_once, alice_again);
    let bob = build("bob@example.com");
    assert_ne!(alice_once, bob);
}
