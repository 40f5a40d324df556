//! Ordering and ranking of teams for display.
//!
//! During the evaluation phase every voter sees the teams in a fixed
//! pseudo-random order of their own: the sort key is a hash of the
//! voter's identity and the team id, a pure function of those two, so
//! the order survives reloads and restarts and depends on no clock or
//! entropy source. Once the outcome may be shown, teams are ordered by
//! total points with ties broken by team id, and carry a dense 1-based
//! rank that is equal exactly for equal totals.
use vstd::prelude::*;

verus! {

use vstd::string::StringSliceAdditionalSpecFns;

use crate::database::{Team, Vote};

/// What is shown with a team, depending on the phase.
pub enum TeamData {
    /// Nothing beyond the team itself.
    Hidden,
    /// The points the requesting voter gave this team.
    UserVote { points: i64 },
    /// Every vote for this team.
    AllVotes { votes: Vec<Vote> },
}

/// One team as displayed, with its members, per-phase data, total
/// points, rank, and the voter-specific shuffle key.
pub struct TeamEntry {
    pub team: Team,
    pub member_emails: Vec<String>,
    pub data: TeamData,
    pub total_points: i64,
    pub rank: u32,
    pub sort_key: u64,
}

// ---------------------------------------------------------------------
// The deterministic shuffle key.
// ---------------------------------------------------------------------
/// One step of the FNV-1a hash.
pub open spec fn fnv1a_step(h: u64, b: u8) -> u64 {
    vstd::wrapping::u64_specs::wrapping_mul(h ^ (b as u64), 0x100000001b3u64)
}

/// FNV-1a over a byte string, continuing from state `h`.
pub open spec fn fnv1a(h: u64, bytes: Seq<u8>) -> u64
    decreases bytes.len(),
{
    if bytes.len() == 0 {
        h
    } else {
        fnv1a_step(fnv1a(h, bytes.drop_last()), bytes.last())
    }
}

/// The bytes of a team id, least significant first.
pub open spec fn id_bytes(team_id: i64) -> Seq<u8> {
    Seq::new(8, |i: int| (((team_id as u64) >> (8 * i as u64)) & 0xff) as u8)
}

/// The shuffle key of one team for one voter: a hash of the voter's
/// identity and the team id alone.
pub open spec fn shuffle_key_of(email: Seq<u8>, team_id: i64) -> u64 {
    fnv1a(fnv1a(0xcbf29ce484222325u64, email), id_bytes(team_id))
}

/// Compute the shuffle key of one team for one voter.
pub fn shuffle_key(email: &str, team_id: i64) -> (r: u64)
    ensures
        r == shuffle_key_of(email.spec_bytes(), team_id),
{
    let bytes = email.as_bytes();
    let n = bytes.len();
    let mut h: u64 = 0xcbf29ce484222325u64;
    let mut i: usize = 0;
    proof {
        assert(email.spec_bytes().subrange(0, 0) =~= Seq::<u8>::empty());
    }
    while i < n
        invariant
            bytes@ == email.spec_bytes(),
            n == bytes@.len(),
            i <= n,
            h == fnv1a(0xcbf29ce484222325u64, email.spec_bytes().subrange(0, i as int)),
        decreases n - i,
    {
        let b = bytes[i];
        proof {
            let pre = email.spec_bytes().subrange(0, i as int);
            let post = email.spec_bytes().subrange(0, i + 1 as int);
            assert(post.drop_last() =~= pre);
            assert(post.last() == email.spec_bytes()[i as int]);
        }
        h = (h ^ (b as u64)).wrapping_mul(0x100000001b3u64);
        i = i + 1;
    }
    proof {
        assert(email.spec_bytes().subrange(0, n as int) =~= email.spec_bytes());
    }
    let idu = team_id as u64;
    let ghost start = h;
    let mut k: usize = 0;
    proof {
        assert(id_bytes(team_id).subrange(0, 0) =~= Seq::<u8>::empty());
    }
    while k < 8
        invariant
            idu == team_id as u64,
            k <= 8,
            h == fnv1a(start, id_bytes(team_id).subrange(0, k as int)),
        decreases 8 - k,
    {
        let b: u8 = ((idu >> ((8 * k) as u64)) & 0xff) as u8;
        proof {
            let pre = id_bytes(team_id).subrange(0, k as int);
            let post = id_bytes(team_id).subrange(0, k + 1 as int);
            assert(post.drop_last() =~= pre);
            assert(post.last() == id_bytes(team_id)[k as int]);
            assert(id_bytes(team_id)[k as int] == (((team_id as u64) >> (8 * k as u64)) & 0xff) as u8);
        }
        h = (h ^ (b as u64)).wrapping_mul(0x100000001b3u64);
        k = k + 1;
    }
    proof {
        assert(id_bytes(team_id).subrange(0, 8) =~= id_bytes(team_id));
    }
    h
}

// ---------------------------------------------------------------------
// Totals.
// ---------------------------------------------------------------------
/// Signed 64-bit addition, saturating at the range ends.
pub open spec fn spec_saturating_add(a: int, b: int) -> int {
    if a + b > i64::MAX {
        i64::MAX as int
    } else if a + b < i64::MIN {
        i64::MIN as int
    } else {
        a + b
    }
}

/// A team's total: the points of its stored votes, summed with
/// saturation so a display total can never overflow.
pub open spec fn votes_total(vs: Seq<Vote>) -> int
    decreases vs.len(),
{
    if vs.len() == 0 {
        0
    } else {
        spec_saturating_add(votes_total(vs.drop_last()), vs.last().points as int)
    }
}

// ---------------------------------------------------------------------
// Sorting the entries.
// ---------------------------------------------------------------------
/// The two orders a team list is put into.
#[derive(Clone, Copy, PartialEq, Eq, Structural, Debug)]
pub enum SortMode {
    /// Ascending shuffle key: the per-voter pseudo-random order.
    Shuffle,
    /// Descending total points, ties by ascending team id.
    Outcome,
}

/// Entry `a` must come strictly before entry `b`.
pub open spec fn entry_before(m: SortMode, a: TeamEntry, b: TeamEntry) -> bool {
    match m {
        SortMode::Shuffle => a.sort_key < b.sort_key,
        SortMode::Outcome => a.total_points > b.total_points || (a.total_points == b.total_points
            && a.team.id < b.team.id),
    }
}

/// Entry `a` may come before entry `b`.
pub open spec fn entry_le(m: SortMode, a: TeamEntry, b: TeamEntry) -> bool {
    !entry_before(m, b, a)
}

pub open spec fn sorted_by(m: SortMode, s: Seq<TeamEntry>) -> bool {
    forall|i: int, j: int| 0 <= i < j < s.len() ==> entry_le(m, #[trigger] s[i], #[trigger] s[j])
}

/// The list runs backwards through the order: the last entry would be
/// first, as during the incremental reveal.
pub open spec fn reverse_sorted_by(m: SortMode, s: Seq<TeamEntry>) -> bool {
    forall|i: int, j: int| 0 <= i < j < s.len() ==> entry_le(m, #[trigger] s[j], #[trigger] s[i])
}


/// Where a new entry lands: before the first entry it must precede,
/// after equals, so the sort is stable.
pub open spec fn insert_pos(m: SortMode, s: Seq<TeamEntry>, x: TeamEntry) -> int
    decreases s.len(),
{
    if s.len() == 0 {
        0
    } else if entry_before(m, x, s[0]) {
        0
    } else {
        1 + insert_pos(m, s.drop_first(), x)
    }
}

/// A sorted list with one more entry, in its place.
pub open spec fn spec_insert(m: SortMode, s: Seq<TeamEntry>, x: TeamEntry) -> Seq<TeamEntry> {
    s.insert(insert_pos(m, s, x), x)
}

/// The list in sorted order: every entry inserted in turn.
pub open spec fn spec_sort(m: SortMode, s: Seq<TeamEntry>) -> Seq<TeamEntry>
    decreases s.len(),
{
    if s.len() == 0 {
        Seq::empty()
    } else {
        spec_insert(m, spec_sort(m, s.drop_last()), s.last())
    }
}

/// The insertion position is within the list, everything before it
/// precedes the new entry, and the entry at it (if any) must follow it.
proof fn lemma_insert_pos_range(m: SortMode, s: Seq<TeamEntry>, x: TeamEntry)
    ensures
        0 <= insert_pos(m, s, x) <= s.len(),
        forall|j: int| 0 <= j < insert_pos(m, s, x) ==> !entry_before(m, x, #[trigger] s[j]),
        insert_pos(m, s, x) < s.len() ==> entry_before(m, x, s[insert_pos(m, s, x)]),
    decreases s.len(),
{
    if s.len() > 0 && !entry_before(m, x, s[0]) {
        lemma_insert_pos_range(m, s.drop_first(), x);
        assert(forall|j: int|
            0 <= j < insert_pos(m, s, x) ==> !entry_before(m, x, #[trigger] s[j])) by {
            assert(forall|j: int| 1 <= j < s.len() ==> s[j] == s.drop_first()[j - 1]);
        }
    }
}

/// Any position with the same three properties is the insertion
/// position.
proof fn lemma_insert_pos_unique(m: SortMode, s: Seq<TeamEntry>, x: TeamEntry, p: int)
    requires
        0 <= p <= s.len(),
        forall|j: int| 0 <= j < p ==> !entry_before(m, x, #[trigger] s[j]),
        p < s.len() ==> entry_before(m, x, s[p]),
    ensures
        p == insert_pos(m, s, x),
    decreases s.len(),
{
    if s.len() > 0 && !entry_before(m, x, s[0]) {
        assert(forall|j: int| 1 <= j < s.len() ==> s[j] == s.drop_first()[j - 1]);
        lemma_insert_pos_unique(m, s.drop_first(), x, p - 1);
    }
}

/// Inserting at the insertion position keeps the list sorted and adds
/// exactly the new entry.
proof fn lemma_insert_sorted(m: SortMode, s: Seq<TeamEntry>, x: TeamEntry)
    requires
        sorted_by(m, s),
    ensures
        sorted_by(m, spec_insert(m, s, x)),
        spec_insert(m, s, x).len() == s.len() + 1,
        spec_insert(m, s, x).to_multiset() =~= s.to_multiset().insert(x),
{
    broadcast use vstd::seq_lib::group_to_multiset_ensures;

    let p = insert_pos(m, s, x);
    let r = s.insert(p, x);
    lemma_insert_pos_range(m, s, x);
    s.insert_ensures(p, x);
    assert forall|i: int, j: int| 0 <= i < j < r.len() implies entry_le(m, r[i], r[j]) by {
        if j < p {
            assert(r[i] == s[i] && r[j] == s[j]);
        } else if i < p && j == p {
            assert(r[i] == s[i] && r[j] == x);
        } else if i < p && j > p {
            assert(r[i] == s[i] && r[j] == s[j - 1]);
        } else if i == p {
            assert(r[i] == x && r[j] == s[j - 1]);
            assert(entry_before(m, x, s[p]));
            assert(entry_le(m, s[p], s[j - 1]) || p == j - 1);
        } else {
            assert(r[i] == s[i - 1] && r[j] == s[j - 1]);
        }
    }
    assert(r.remove(p) =~= s);
    assert(r.remove(p).to_multiset() =~= r.to_multiset().remove(r[p]));
    assert(r[p] == x);
    assert(r.to_multiset().contains(x)) by {
        assert(r.contains(x)) by {
            assert(r[p] == x);
        }
    }
    assert(r.to_multiset() =~= s.to_multiset().insert(x)) by {
        broadcast use vstd::multiset::group_multiset_axioms;

        assert(s.to_multiset() == r.to_multiset().remove(x));
        assert(r.to_multiset().count(x) >= 1);
        assert(forall|y: TeamEntry|
            #[trigger] r.to_multiset().count(y) == s.to_multiset().insert(x).count(y));
    }
}

/// A sorted copy of the list holds the same entries, each as often.
pub proof fn lemma_sort_sorted(m: SortMode, s: Seq<TeamEntry>)
    ensures
        sorted_by(m, spec_sort(m, s)),
        spec_sort(m, s).len() == s.len(),
        spec_sort(m, s).to_multiset() =~= s.to_multiset(),
    decreases s.len(),
{
    broadcast use vstd::seq_lib::group_to_multiset_ensures;

    if s.len() > 0 {
        lemma_sort_sorted(m, s.drop_last());
        lemma_insert_sorted(m, spec_sort(m, s.drop_last()), s.last());
        assert(s.drop_last().push(s.last()) =~= s);
        assert(s.drop_last().push(s.last()).to_multiset() =~= s.drop_last().to_multiset().insert(
            s.last(),
        ));
    }
}

/// The sorted order is a function of the input alone: two runs over the
/// same entries produce the same order.
pub proof fn lemma_sort_deterministic(
    m: SortMode,
    s: Seq<TeamEntry>,
    r1: Seq<TeamEntry>,
    r2: Seq<TeamEntry>,
)
    requires
        r1 == spec_sort(m, s),
        r2 == spec_sort(m, s),
    ensures
        r1 == r2,
{
}

/// Whether `a` must come strictly before `b` in the given order.
fn entry_before_exec(m: SortMode, a: &TeamEntry, b: &TeamEntry) -> (r: bool)
    ensures
        r == entry_before(m, *a, *b),
{
    match m {
        SortMode::Shuffle => a.sort_key < b.sort_key,
        SortMode::Outcome => a.total_points > b.total_points || (a.total_points == b.total_points
            && a.team.id < b.team.id),
    }
}

/// Insert one entry into its place in a sorted vector.
fn insert_entry(m: SortMode, out: &mut Vec<TeamEntry>, x: TeamEntry)
    ensures
        final(out)@ == spec_insert(m, old(out)@, x),
{
    let n = out.len();
    let mut pos: usize = 0;
    while pos < n && !entry_before_exec(m, &x, &out[pos])
        invariant
            n == out@.len(),
            out@ == old(out)@,
            pos <= n,
            forall|j: int| 0 <= j < pos ==> !entry_before(m, x, #[trigger] out@[j]),
        decreases n - pos,
    {
        pos = pos + 1;
    }
    proof {
        lemma_insert_pos_unique(m, out@, x, pos as int);
    }
    out.insert(pos, x);
}

/// Sort the entries into the given order. The order of the result is a
/// pure function of the input entries, so two calls on the same entries
/// agree.
pub fn sort_entries(m: SortMode, entries: Vec<TeamEntry>) -> (r: Vec<TeamEntry>)
    ensures
        r@ == spec_sort(m, entries@),
        sorted_by(m, r@),
        r@.len() == entries@.len(),
        r@.to_multiset() =~= entries@.to_multiset(),
{
    let ghost orig = entries@;
    let mut v = entries;
    let mut out: Vec<TeamEntry> = Vec::new();
    let mut k: usize = 0;
    let n = v.len();
    proof {
        assert(orig.subrange(0, 0) =~= Seq::<TeamEntry>::empty());
    }
    while k < n
        invariant
            n == orig.len(),
            k <= n,
            v@ =~= orig.subrange(k as int, n as int),
            out@ == spec_sort(m, orig.subrange(0, k as int)),
        decreases n - k,
    {
        let x = v.remove(0);
        proof {
            let pre = orig.subrange(0, k as int);
            let post = orig.subrange(0, k + 1 as int);
            assert(post.drop_last() =~= pre);
            assert(post.last() == orig[k as int]);
            assert(x == orig[k as int]);
            assert(v@ =~= orig.subrange(k + 1 as int, n as int));
        }
        insert_entry(m, &mut out, x);
        k = k + 1;
    }
    proof {
        assert(orig.subrange(0, n as int) =~= orig);
        lemma_sort_sorted(m, orig);
    }
    out
}

// ---------------------------------------------------------------------
// Rank assignment.
// ---------------------------------------------------------------------
/// One pair of entries carries consistent ranks: equal totals share a
/// rank, and a higher total means a strictly better (numerically lower)
/// rank.
pub open spec fn rank_pair_ok(s: Seq<TeamEntry>, i: int, j: int) -> bool {
    &&& (s[i].total_points == s[j].total_points ==> s[i].rank == s[j].rank)
    &&& (s[i].total_points > s[j].total_points ==> s[i].rank < s[j].rank)
}

/// Teams with equal totals share a rank; a team with a higher total has
/// a strictly better (numerically lower) rank.
pub open spec fn ranks_consistent(s: Seq<TeamEntry>) -> bool {
    forall|i: int, j: int| 0 <= i < s.len() && 0 <= j < s.len() ==> #[trigger] rank_pair_ok(s, i, j)
}

/// The same entry with its rank set.
pub open spec fn with_rank(e: TeamEntry, rank: u32) -> TeamEntry {
    TeamEntry { rank, ..e }
}

/// Give the sorted entries their dense 1-based ranks: the first entry
/// gets rank 1, and the rank grows by one exactly where the total
/// changes from the previous entry.
pub fn assign_ranks(entries: Vec<TeamEntry>) -> (r: Vec<TeamEntry>)
    requires
        sorted_by(SortMode::Outcome, entries@),
        entries@.len() <= u32::MAX,
    ensures
        r@.len() == entries@.len(),
        forall|i: int| 0 <= i < r@.len() ==> #[trigger] r@[i] == with_rank(entries@[i], r@[i].rank),
        r@.len() > 0 ==> r@[0].rank == 1,
        forall|i: int|
            0 < i < r@.len() ==> (#[trigger] r@[i]).rank == if r@[i].total_points == r@[i
                - 1].total_points {
                r@[i - 1].rank as int
            } else {
                r@[i - 1].rank + 1
            },
        ranks_consistent(r@),
{
    let ghost orig = entries@;
    let mut v = entries;
    let mut out: Vec<TeamEntry> = Vec::new();
    let mut rank: u32 = 0;
    let mut prev_points: i64 = 0;
    let mut have_prev = false;
    let n = v.len();
    let mut k: usize = 0;
    while k < n
        invariant
            n == orig.len() <= u32::MAX,
            k <= n,
            v@ =~= orig.subrange(k as int, n as int),
            out@.len() == k,
            sorted_by(SortMode::Outcome, orig),
            forall|i: int| 0 <= i < k ==> #[trigger] out@[i] == with_rank(orig[i], out@[i].rank),
            k > 0 ==> out@[0].rank == 1,
            forall|i: int|
                0 < i < k ==> (#[trigger] out@[i]).rank == if out@[i].total_points == out@[i
                    - 1].total_points {
                    out@[i - 1].rank as int
                } else {
                    out@[i - 1].rank + 1
                },
            have_prev == (k > 0),
            have_prev ==> rank == out@[k - 1].rank && prev_points == out@[k - 1].total_points
                && rank >= 1,
            !have_prev ==> rank == 0,
            rank <= k,
            ranks_consistent(out@),
        decreases n - k,
    {
        let mut e = v.remove(0);
        proof {
            assert(e == orig[k as int]);
            assert(v@ =~= orig.subrange(k + 1 as int, n as int));
        }
        if !have_prev || e.total_points != prev_points {
            rank = rank + 1;
        }
        prev_points = e.total_points;
        have_prev = true;
        e.rank = rank;
        let ghost out0 = out@;
        out.push(e);
        proof {
            let m = k as int;
            let s = out@;
            assert(s =~= out0.push(e));
            assert(forall|i: int| 0 <= i < m ==> s[i] == out0[i]);
            // Totals never grow along the sorted order.
            assert forall|i: int| 0 <= i < m implies (#[trigger] s[i]).total_points
                >= s[m].total_points by {
                assert(entry_le(SortMode::Outcome, orig[i], orig[m]));
                assert(s[i] == with_rank(orig[i], s[i].rank));
            }
            assert forall|i: int, j: int|
                0 <= i < s.len() && 0 <= j < s.len() implies #[trigger] rank_pair_ok(s, i, j) by {
                if i < m && j < m {
                    assert(rank_pair_ok(out0, i, j));
                } else if i == m && j == m {
                } else {
                    // One side is the new entry. A pair with equal totals
                    // squeezes everything between them to the same total.
                    let a = if i == m {
                        j
                    } else {
                        i
                    };
                    assert(0 <= a < m);
                    assert(rank_pair_ok(out0, a, m - 1));
                    assert(rank_pair_ok(out0, m - 1, a));
                    assert(s[a].total_points >= s[m - 1].total_points >= s[m].total_points);
                    if s[m - 1].total_points == s[m].total_points {
                        assert(s[m].rank == s[m - 1].rank);
                    } else {
                        assert(s[m].rank == s[m - 1].rank + 1);
                    }
                }
            }
        }
        k = k + 1;
    }
    proof {
        assert(orig.subrange(n as int, n as int) =~= Seq::<TeamEntry>::empty());
    }
    out
}

/// The entries in the opposite order, for the incremental reveal: rank
/// numbers and totals are untouched.
pub fn reverse_entries(entries: Vec<TeamEntry>) -> (r: Vec<TeamEntry>)
    ensures
        r@.len() == entries@.len(),
        forall|i: int| 0 <= i < r@.len() ==> #[trigger] r@[i] == entries@[r@.len() - 1 - i],
{
    let mut v = entries;
    let mut out: Vec<TeamEntry> = Vec::new();
    let ghost orig = v@;
    let n = v.len();
    let mut k: usize = 0;
    while k < n
        invariant
            n == orig.len(),
            k <= n,
            v@ =~= orig.subrange(0, (n - k) as int),
            out@.len() == k,
            forall|i: int| 0 <= i < k ==> #[trigger] out@[i] == orig[n - 1 - i],
        decreases n - k,
    {
        let x = match v.pop() {
            Some(x) => x,
            None => {
                proof {
                    assert(false);
                }
                return out;
            },
        };
        proof {
            assert(x == orig[n - k - 1]);
            assert(v@ =~= orig.subrange(0, (n - k - 1) as int));
        }
        out.push(x);
        k = k + 1;
    }
    out
}

} // verus!
