//! The quadratic-vote tally engine: budget checking, anti-cheat
//! neutralization, and the decision of what a submission stores.
//!
//! Awarding `p` points to one team costs `p * p` coins; the squares of
//! all submitted values must fit the voter's coin budget. A voter who
//! submits a non-zero value for a team they belong to is flagged as a
//! cheater and that value is zeroed before anything is stored; negative
//! values for other teams are rejected outright.
//!
//! Of the two conceivable anti-cheat policies — flip the sign of a
//! self-vote and keep it, or zero it and refuse any other negative
//! value — this library implements the second, everywhere: stored
//! points are always positive.
use vstd::prelude::*;

verus! {

use crate::form::{distinct_keys, has_key};

/// The sum of the squares of the point values of a mapping.
pub open spec fn sum_squares(s: Seq<(i64, i64)>) -> int
    decreases s.len(),
{
    if s.len() == 0 {
        0
    } else {
        sum_squares(s.drop_last()) + s.last().1 * s.last().1
    }
}

proof fn lemma_sum_squares_nonneg(s: Seq<(i64, i64)>)
    ensures
        sum_squares(s) >= 0,
    decreases s.len(),
{
    if s.len() > 0 {
        lemma_sum_squares_nonneg(s.drop_last());
        assert(s.last().1 * s.last().1 >= 0) by (nonlinear_arith);
    }
}

/// The squares of a prefix never exceed the squares of the whole.
proof fn lemma_sum_squares_prefix(s: Seq<(i64, i64)>, k: int)
    requires
        0 <= k <= s.len(),
    ensures
        sum_squares(s.subrange(0, k)) <= sum_squares(s),
    decreases s.len(),
{
    if k == s.len() {
        assert(s.subrange(0, k) =~= s);
    } else {
        assert(s.drop_last().subrange(0, k) =~= s.subrange(0, k));
        lemma_sum_squares_prefix(s.drop_last(), k);
        assert(s.last().1 * s.last().1 >= 0) by (nonlinear_arith);
    }
}

/// Sum the squares of the submitted values without overflow; the exact
/// mathematical sum is returned whenever it fits in 64 bits.
pub fn get_coins_spent(points: &Vec<(i64, i64)>) -> (r: Option<i64>)
    ensures
        sum_squares(points@) >= 0,
        sum_squares(points@) <= i64::MAX ==> r == Some(sum_squares(points@) as i64),
        sum_squares(points@) > i64::MAX ==> r is None,
{
    proof {
        lemma_sum_squares_nonneg(points@);
    }
    let n = points.len();
    let mut total: i64 = 0;
    let mut i: usize = 0;
    proof {
        assert(points@.subrange(0, 0) =~= Seq::<(i64, i64)>::empty());
    }
    while i < n
        invariant
            n == points@.len(),
            i <= n,
            total == sum_squares(points@.subrange(0, i as int)),
            total >= 0,
        decreases n - i,
    {
        let p = points[i].1;
        proof {
            // The square of a 64-bit value stays well inside 128 bits.
            assert((p as int) * (p as int) <= 85070591730234615865843651857942052864int)
                by (nonlinear_arith)
                requires
                    i64::MIN <= p <= i64::MAX,
            ;
            assert((p as int) * (p as int) >= 0) by (nonlinear_arith);
        }
        let pp: i128 = (p as i128) * (p as i128);
        proof {
            assert(points@.subrange(0, i + 1 as int).drop_last() =~= points@.subrange(0, i as int));
            assert(points@.subrange(0, i + 1 as int).last() == points@[i as int]);
            assert(pp == p * p);
        }
        if pp > i64::MAX as i128 || (total as i128) + pp > i64::MAX as i128 {
            proof {
                lemma_sum_squares_prefix(points@, i + 1);
                lemma_sum_squares_nonneg(points@.subrange(0, i as int));
            }
            return None;
        }
        total = total + (pp as i64);
        i = i + 1;
    }
    proof {
        assert(points@.subrange(0, n as int) =~= points@);
    }
    Some(total)
}

/// Team `t` is one of the voter's teams.
pub open spec fn in_members(members: Seq<i64>, t: i64) -> bool {
    exists|i: int| 0 <= i < members.len() && members[i] == t
}

/// The submission with every value for one of the voter's own teams
/// zeroed.
pub open spec fn neutralize(sub: Seq<(i64, i64)>, members: Seq<i64>) -> Seq<(i64, i64)> {
    sub.map_values(
        |e: (i64, i64)|
            if in_members(members, e.0) {
                (e.0, 0i64)
            } else {
                e
            },
    )
}

/// The entries of a mapping that are stored: those with a non-zero
/// value, in order.
pub open spec fn keep_rows(s: Seq<(i64, i64)>) -> Seq<(i64, i64)>
    decreases s.len(),
{
    if s.len() == 0 {
        Seq::empty()
    } else if s.last().1 != 0 {
        keep_rows(s.drop_last()).push(s.last())
    } else {
        keep_rows(s.drop_last())
    }
}

/// The voter submitted a non-zero value for one of their own teams.
pub open spec fn spec_cheated(sub: Seq<(i64, i64)>, members: Seq<i64>) -> bool {
    exists|i: int| 0 <= i < sub.len() && in_members(members, (#[trigger] sub[i]).0) && sub[i].1 != 0
}

/// Why a vote submission was rejected.
#[derive(Clone, Copy, PartialEq, Eq, Structural, Debug)]
pub enum VoteError {
    /// The sum of squares does not fit in 64 bits.
    Overflow,
    /// The sum of squares exceeds the coin budget.
    OverBudget,
    /// A negative value for a team the voter does not belong to.
    NegativePoints,
}

/// What a validated submission does: either it is rejected and nothing
/// is stored, or exactly `rows` replace the voter's stored votes and
/// `cheated` says whether the voter is newly flagged.
pub enum Decision {
    Reject(VoteError),
    Accept { rows: Vec<(i64, i64)>, cheated: bool },
}

/// Zeroing values can only lower the sum of squares.
proof fn lemma_sum_squares_neutralize(sub: Seq<(i64, i64)>, members: Seq<i64>)
    ensures
        sum_squares(neutralize(sub, members)) <= sum_squares(sub),
        neutralize(sub, members).len() == sub.len(),
    decreases sub.len(),
{
    let nz = neutralize(sub, members);
    if sub.len() > 0 {
        assert(nz.drop_last() =~= neutralize(sub.drop_last(), members));
        lemma_sum_squares_neutralize(sub.drop_last(), members);
        assert(nz.last().1 * nz.last().1 <= sub.last().1 * sub.last().1) by {
            if in_members(members, sub.last().0) {
                assert(nz.last().1 == 0);
                assert(sub.last().1 * sub.last().1 >= 0) by (nonlinear_arith);
            } else {
                assert(nz.last() == sub.last());
            }
        }
    }
}

/// Dropping zero rows can only lower the sum of squares.
proof fn lemma_sum_squares_keep(s: Seq<(i64, i64)>)
    ensures
        sum_squares(keep_rows(s)) <= sum_squares(s),
    decreases s.len(),
{
    if s.len() > 0 {
        lemma_sum_squares_keep(s.drop_last());
        assert(s.last().1 * s.last().1 >= 0) by (nonlinear_arith);
        if s.last().1 != 0 {
            assert(keep_rows(s).drop_last() =~= keep_rows(s.drop_last()));
            assert(keep_rows(s).last() == s.last());
        }
    }
}

/// What the stored rows of a neutralized submission look like: no row
/// for one of the voter's teams, positive values only (when no negative
/// value survived), at most one row per team, and every row's team taken
/// from the submission.
proof fn lemma_rows_shape(sub: Seq<(i64, i64)>, members: Seq<i64>)
    requires
        distinct_keys(sub),
        forall|i: int|
            0 <= i < sub.len() && !in_members(members, (#[trigger] sub[i]).0) ==> sub[i].1 >= 0,
    ensures
        ({
            let rows = keep_rows(neutralize(sub, members));
            &&& forall|i: int|
                0 <= i < rows.len() ==> !in_members(members, (#[trigger] rows[i]).0) && rows[i].1
                    > 0
            &&& forall|t: i64| has_key(rows, t) ==> has_key(sub, t)
            &&& distinct_keys(rows)
        }),
    decreases sub.len(),
{
    let nz = neutralize(sub, members);
    let rows = keep_rows(nz);
    if sub.len() > 0 {
        let sub0 = sub.drop_last();
        assert(distinct_keys(sub0));
        assert(forall|i: int|
            0 <= i < sub0.len() && !in_members(members, (#[trigger] sub0[i]).0) ==> sub0[i].1
                >= 0) by {
            assert(forall|i: int| 0 <= i < sub0.len() ==> sub0[i] == sub[i]);
        }
        lemma_rows_shape(sub0, members);
        assert(nz.drop_last() =~= neutralize(sub0, members));
        let rows0 = keep_rows(neutralize(sub0, members));
        if nz.last().1 != 0 {
            assert(rows =~= rows0.push(nz.last()));
            // The last entry survived, so its team is not the voter's and
            // its value is positive.
            assert(!in_members(members, nz.last().0));
            assert(nz.last() == sub.last());
            assert forall|t: i64| has_key(rows, t) implies has_key(sub, t) by {
                let i = choose|i: int| 0 <= i < rows.len() && rows[i].0 == t;
                if i < rows0.len() {
                    assert(rows[i] == rows0[i]);
                    assert(has_key(rows0, t));
                    let j = choose|j: int| 0 <= j < sub0.len() && sub0[j].0 == t;
                    assert(sub[j] == sub0[j]);
                    assert(has_key(sub, t));
                } else {
                    assert(rows[i] == nz.last());
                    assert(sub[sub.len() - 1].0 == t);
                    assert(has_key(sub, t));
                }
            }
            // Its team is new: the submission's keys are distinct and the
            // earlier rows draw their teams from the earlier entries.
            assert forall|i: int, j: int| 0 <= i < j < rows.len() implies (
            #[trigger] rows[i]).0 != (#[trigger] rows[j]).0 by {
                if j < rows0.len() {
                    assert(rows[i] == rows0[i] && rows[j] == rows0[j]);
                } else {
                    assert(rows[i] == rows0[i]);
                    assert(rows[j] == nz.last());
                    assert(has_key(rows0, rows0[i].0));
                    let w = choose|w: int| 0 <= w < sub0.len() && sub0[w].0 == rows0[i].0;
                    assert(sub[w] == sub0[w]);
                    assert(sub[w].0 != sub.last().0);
                }
            }
            assert forall|i: int|
                0 <= i < rows.len() implies !in_members(members, (#[trigger] rows[i]).0)
                && rows[i].1 > 0 by {
                if i < rows0.len() {
                    assert(rows[i] == rows0[i]);
                } else {
                    assert(rows[i] == nz.last());
                    assert(sub.last().1 > 0);
                }
            }
        } else {
            assert(rows =~= rows0);
            assert forall|t: i64| has_key(rows, t) implies has_key(sub, t) by {
                let j = choose|j: int| 0 <= j < sub0.len() && sub0[j].0 == t;
                assert(sub[j] == sub0[j]);
            }
        }
    }
}

/// Whether `t` is one of the voter's teams, by linear search.
pub fn is_member_team(members: &Vec<i64>, t: i64) -> (r: bool)
    ensures
        r == in_members(members@, t),
{
    let n = members.len();
    let mut i: usize = 0;
    while i < n
        invariant
            n == members@.len(),
            i <= n,
            forall|j: int| 0 <= j < i ==> members@[j] != t,
        decreases n - i,
    {
        if members[i] == t {
            return true;
        }
        i = i + 1;
    }
    false
}

/// Decide what a vote submission does, before anything is written.
///
/// In order: a sum of squares that overflows 64 bits is rejected; a sum
/// above the budget is rejected; values for the voter's own teams are
/// zeroed and flag the voter as a cheater; a negative value for any
/// other team is rejected. What remains is stored: exactly the non-zero
/// entries of the neutralized submission.
pub fn decide_vote(submission: &Vec<(i64, i64)>, members: &Vec<i64>, budget: i64) -> (r: Decision)
    requires
        distinct_keys(submission@),
        budget >= 0,
    ensures
        r == Decision::Reject(VoteError::Overflow) <==> sum_squares(submission@) > i64::MAX,
        r == Decision::Reject(VoteError::OverBudget) <==> (sum_squares(submission@) <= i64::MAX
            && sum_squares(submission@) > budget),
        r == Decision::Reject(VoteError::NegativePoints) <==> (sum_squares(submission@) <= budget
            && exists|i: int|
            0 <= i < submission@.len() && !in_members(members@, (#[trigger] submission@[i]).0)
                && submission@[i].1 < 0),
        r matches Decision::Accept { rows, cheated } ==> {
            &&& rows@ == keep_rows(neutralize(submission@, members@))
            &&& cheated == spec_cheated(submission@, members@)
            &&& sum_squares(rows@) <= budget
            &&& forall|i: int|
                0 <= i < rows@.len() ==> !in_members(members@, (#[trigger] rows@[i]).0)
                    && rows@[i].1 > 0
            &&& distinct_keys(rows@)
            &&& forall|t: i64| has_key(rows@, t) ==> has_key(submission@, t)
        },
{
    let spent = match get_coins_spent(submission) {
        Some(c) => c,
        None => {
            return Decision::Reject(VoteError::Overflow);
        },
    };
    if spent > budget {
        return Decision::Reject(VoteError::OverBudget);
    }
    let n = submission.len();
    let mut rows: Vec<(i64, i64)> = Vec::new();
    let mut cheated = false;
    let mut i: usize = 0;
    proof {
        assert(submission@.subrange(0, 0) =~= Seq::<(i64, i64)>::empty());
        assert(neutralize(submission@.subrange(0, 0), members@) =~= Seq::<(i64, i64)>::empty());
    }
    while i < n
        invariant
            n == submission@.len(),
            i <= n,
            sum_squares(submission@) <= budget,
            rows@ == keep_rows(neutralize(submission@.subrange(0, i as int), members@)),
            cheated == spec_cheated(submission@.subrange(0, i as int), members@),
            forall|j: int|
                0 <= j < i && !in_members(members@, (#[trigger] submission@[j]).0) ==> submission@[j].1
                    >= 0,
        decreases n - i,
    {
        let ghost pre = submission@.subrange(0, i as int);
        let ghost post = submission@.subrange(0, i + 1 as int);
        proof {
            assert(post.drop_last() =~= pre);
            assert(post.last() == submission@[i as int]);
            assert(neutralize(post, members@).drop_last() =~= neutralize(pre, members@));
        }
        let entry = submission[i];
        if is_member_team(members, entry.0) {
            if entry.1 != 0 {
                cheated = true;
            }
            proof {
                assert(neutralize(post, members@).last().1 == 0);
                if cheated {
                    if in_members(members@, post.last().0) && post.last().1 != 0 {
                        assert(spec_cheated(post, members@));
                    } else {
                        assert(spec_cheated(pre, members@));
                        assert(forall|j: int| 0 <= j < pre.len() ==> pre[j] == post[j]);
                    }
                } else {
                    assert(!spec_cheated(post, members@)) by {
                        assert(forall|j: int| 0 <= j < pre.len() ==> post[j] == pre[j]);
                    }
                }
            }
        } else {
            if entry.1 < 0 {
                return Decision::Reject(VoteError::NegativePoints);
            }
            proof {
                assert(neutralize(post, members@).last() == post.last());
                assert(spec_cheated(post, members@) == spec_cheated(pre, members@)) by {
                    assert(forall|j: int| 0 <= j < pre.len() ==> post[j] == pre[j]);
                }
            }
            if entry.1 != 0 {
                rows.push(entry);
            }
        }
        i = i + 1;
    }
    proof {
        assert(submission@.subrange(0, n as int) =~= submission@);
        lemma_sum_squares_neutralize(submission@, members@);
        lemma_sum_squares_keep(neutralize(submission@, members@));
        lemma_rows_shape(submission@, members@);
    }
    Decision::Accept { rows, cheated }
}

/// The set of flagged voters after a submission: flagged voters stay
/// flagged, and a cheating submission adds its voter.
pub open spec fn flags_after(flags: Set<Seq<char>>, voter: Seq<char>, cheated: bool) -> Set<
    Seq<char>,
> {
    if cheated {
        flags.insert(voter)
    } else {
        flags
    }
}

/// The cheater flag is permanent and idempotent: flagging an
/// already-flagged voter changes nothing, and no submission removes a
/// flag.
pub proof fn lemma_cheater_flag_idempotent(flags: Set<Seq<char>>, voter: Seq<char>, cheated: bool)
    ensures
        flags_after(flags, voter, true).contains(voter),
        flags_after(flags_after(flags, voter, true), voter, true) == flags_after(
            flags,
            voter,
            true,
        ),
        forall|w: Seq<char>| flags.contains(w) ==> flags_after(flags, voter, cheated).contains(w),
{
    assert(flags_after(flags_after(flags, voter, true), voter, true) =~= flags_after(
        flags,
        voter,
        true,
    ));
}

/// The most points one team can be given: the largest `r` whose square
/// is within the budget.
pub fn max_points_for_budget(budget: u32) -> (r: u32)
    ensures
        (r as int) * (r as int) <= budget,
        ((r + 1) as int) * ((r + 1) as int) > budget,
{
    let mut r: u64 = 0;
    // `sq` tracks the square of the next candidate, so the loop needs no
    // multiplication: (r + 1)^2 == r^2 + 2r + 1.
    let mut sq: u64 = 1;
    let b = budget as u64;
    while sq <= b
        invariant
            b == budget,
            (r as int) * (r as int) <= b,
            sq == ((r + 1) as int) * ((r + 1) as int),
            r <= b,
            r <= 65535,
        decreases b - r,
    {
        proof {
            assert(((r + 1) as int) * ((r + 1) as int) <= u32::MAX ==> (r + 1) as int <= 65535)
                by (nonlinear_arith);
            assert((r + 1) as int <= ((r + 1) as int) * ((r + 1) as int)) by (nonlinear_arith);
            assert(((r + 2) as int) * ((r + 2) as int) == ((r + 1) as int) * ((r + 1) as int) + 2
                * ((r + 1) as int) + 1) by (nonlinear_arith);
        }
        r = r + 1;
        sq = sq + 2 * r + 1;
    }
    r as u32
}

} // verus!
