//! Decoding of submitted forms into plain values.
//!
//! The url-encoded body is split into key/value pairs by an outside
//! decoder; everything after that — field dispatch, trimming, integer
//! parsing, the vote mapping — is verified here.
use vstd::prelude::*;

verus! {

use vstd::string::StrSliceExecFns;
use vstd::string::StringSliceAdditionalSpecFns;

use crate::numparse::{parse_i64, spec_parse_i64};
use crate::validate::str_eq;

/// Why a submitted form was rejected.
#[derive(Clone, Copy, PartialEq, Eq, Structural, Debug)]
pub enum FormError {
    /// A field this form does not use.
    UnexpectedField,
    /// A team id that does not parse as an integer.
    BadTeamId,
    /// A point value that does not parse as an integer.
    BadPoints,
    /// The form named no team.
    MissingTeamId,
}

/// The key/value pairs of a form body, as character sequences.
pub open spec fn pairs_view(v: Seq<(String, String)>) -> Seq<(Seq<char>, Seq<char>)> {
    v.map_values(|p: (String, String)| (p.0@, p.1@))
}

/// What decoding an url-encoded body yields. The decoding (splitting on
/// `&` and `=`, percent-decoding, `+` to space) is a function of the
/// body's bytes alone.
pub uninterp spec fn form_pairs_of(body: Seq<u8>) -> Seq<(Seq<char>, Seq<char>)>;

/// Relies on form_urlencoded::parse: splits a body on `&` and `=` and
/// percent-decodes each side; an empty body yields no pairs.
#[verifier::external_body]
pub fn parse_form(body: &str) -> (r: Vec<(String, String)>)
    ensures
        pairs_view(r@) == form_pairs_of(body.spec_bytes()),
        body@.len() == 0 ==> r@.len() == 0,
{
    form_urlencoded::parse(body.as_bytes()).into_owned().collect()
}

// ---------------------------------------------------------------------
// Trimming surrounding blanks from user-entered fields.
// ---------------------------------------------------------------------
/// Blank characters stripped from either end of a field: the Unicode
/// White_Space code points, as `char::is_whitespace` draws the set —
/// the ASCII blanks, next line, no-break space, the ogham space mark,
/// the en-quad through hair-space range, the line and paragraph
/// separators, the narrow and medium mathematical spaces, and the
/// ideographic space.
pub open spec fn is_blank_char(c: char) -> bool {
    ||| 0x09 <= (c as u32) <= 0x0d
    ||| (c as u32) == 0x20
    ||| (c as u32) == 0x85
    ||| (c as u32) == 0xa0
    ||| (c as u32) == 0x1680
    ||| 0x2000 <= (c as u32) <= 0x200a
    ||| (c as u32) == 0x2028
    ||| (c as u32) == 0x2029
    ||| (c as u32) == 0x202f
    ||| (c as u32) == 0x205f
    ||| (c as u32) == 0x3000
}

pub open spec fn trim_front(s: Seq<char>) -> Seq<char>
    decreases s.len(),
{
    if s.len() > 0 && is_blank_char(s[0]) {
        trim_front(s.drop_first())
    } else {
        s
    }
}

pub open spec fn trim_back(s: Seq<char>) -> Seq<char>
    decreases s.len(),
{
    if s.len() > 0 && is_blank_char(s.last()) {
        trim_back(s.drop_last())
    } else {
        s
    }
}

/// A field with surrounding blanks removed.
pub open spec fn spec_trim(s: Seq<char>) -> Seq<char> {
    trim_back(trim_front(s))
}

proof fn lemma_trim_front_skip(s: Seq<char>, a: int)
    requires
        0 <= a <= s.len(),
        forall|j: int| 0 <= j < a ==> is_blank_char(#[trigger] s[j]),
        a < s.len() ==> !is_blank_char(s[a]),
    ensures
        trim_front(s) =~= s.subrange(a, s.len() as int),
    decreases a,
{
    if a > 0 {
        let t = s.drop_first();
        assert(forall|j: int| 0 <= j < a - 1 ==> is_blank_char(#[trigger] t[j]));
        lemma_trim_front_skip(t, a - 1);
    }
}

proof fn lemma_trim_back_skip(s: Seq<char>, b: int)
    requires
        0 <= b <= s.len(),
        forall|j: int| b <= j < s.len() ==> is_blank_char(#[trigger] s[j]),
        b > 0 ==> !is_blank_char(s[b - 1]),
    ensures
        trim_back(s) =~= s.subrange(0, b),
    decreases s.len() - b,
{
    if b < s.len() {
        let t = s.drop_last();
        assert(forall|j: int| b <= j < t.len() ==> is_blank_char(#[trigger] t[j]));
        lemma_trim_back_skip(t, b);
    }
}

/// Whether a character is stripped by trimming.
pub fn is_blank(c: char) -> (r: bool)
    ensures
        r == is_blank_char(c),
{
    let v = c as u32;
    (0x09 <= v && v <= 0x0d) || v == 0x20 || v == 0x85 || v == 0xa0 || v == 0x1680 || (0x2000 <= v
        && v <= 0x200a) || v == 0x2028 || v == 0x2029 || v == 0x202f || v == 0x205f || v == 0x3000
}

/// Strip blanks from both ends of a field.
pub fn trim_blanks(s: &str) -> (r: String)
    ensures
        r@ == spec_trim(s@),
{
    let n = s.unicode_len();
    let mut a: usize = 0;
    while a < n && is_blank(s.get_char(a))
        invariant
            n == s@.len(),
            a <= n,
            forall|j: int| 0 <= j < a ==> is_blank_char(#[trigger] s@[j]),
        decreases n - a,
    {
        a = a + 1;
    }
    proof {
        lemma_trim_front_skip(s@, a as int);
    }
    let mut b: usize = n;
    while b > a && is_blank(s.get_char(b - 1))
        invariant
            n == s@.len(),
            a <= b <= n,
            forall|j: int| 0 <= j < a ==> is_blank_char(#[trigger] s@[j]),
            forall|j: int| b <= j < n ==> is_blank_char(#[trigger] s@[j]),
        decreases b,
    {
        b = b - 1;
    }
    proof {
        let f = trim_front(s@);
        assert(f =~= s@.subrange(a as int, n as int));
        assert(forall|j: int| b - a <= j < f.len() ==> is_blank_char(#[trigger] f[j]));
        if b > a {
            assert(f[b - a - 1] == s@[b - 1]);
        }
        lemma_trim_back_skip(f, b - a);
        assert(f.subrange(0, b - a) =~= s@.subrange(a as int, b as int));
    }
    let out = s.substring_char(a, b);
    out.to_owned()
}

// ---------------------------------------------------------------------
// The vote form: one `team-<id>` field per team.
// ---------------------------------------------------------------------
/// The mapping has an entry for team `t`.
pub open spec fn has_key(s: Seq<(i64, i64)>, t: i64) -> bool {
    exists|i: int| 0 <= i < s.len() && s[i].0 == t
}

pub open spec fn key_index(s: Seq<(i64, i64)>, t: i64) -> int {
    choose|i: int| 0 <= i < s.len() && s[i].0 == t
}

/// Each team appears at most once in the mapping.
pub open spec fn distinct_keys(s: Seq<(i64, i64)>) -> bool {
    forall|i: int, j: int| 0 <= i < j < s.len() ==> (#[trigger] s[i]).0 != (#[trigger] s[j]).0
}

/// Insert an entry, replacing the one already present for the same team.
pub open spec fn upsert(s: Seq<(i64, i64)>, t: i64, p: i64) -> Seq<(i64, i64)> {
    if has_key(s, t) {
        s.update(key_index(s, t), (t, p))
    } else {
        s.push((t, p))
    }
}

/// Insert into the vector form of the mapping, replacing an existing
/// entry for the same team.
pub fn upsert_vec(v: &mut Vec<(i64, i64)>, t: i64, p: i64)
    requires
        distinct_keys(old(v)@),
    ensures
        final(v)@ == upsert(old(v)@, t, p),
        distinct_keys(final(v)@),
{
    let n = v.len();
    let mut i: usize = 0;
    while i < n
        invariant
            n == v@.len(),
            i <= n,
            distinct_keys(v@),
            v@ == old(v)@,
            forall|j: int| 0 <= j < i ==> (#[trigger] v@[j]).0 != t,
        decreases n - i,
    {
        if v[i].0 == t {
            assert(has_key(v@, t));
            proof {
                let w = key_index(v@, t);
                assert(0 <= w < v@.len() && v@[w].0 == t);
                assert(w == i);
            }
            v.set(i, (t, p));
            return ;
        }
        i = i + 1;
    }
    assert(!has_key(v@, t));
    v.push((t, p));
}

/// The vote mapping a form body denotes, folded left to right: each
/// `team-<id>` field parses to a team and a point value, later fields
/// for the same team replacing earlier ones; any other field, or a side
/// that does not parse, rejects the form.
pub open spec fn fold_vote_pairs(pairs: Seq<(Seq<char>, Seq<char>)>, acc: Seq<(i64, i64)>) -> Result<
    Seq<(i64, i64)>,
    FormError,
>
    decreases pairs.len(),
{
    if pairs.len() == 0 {
        Ok(acc)
    } else {
        let k = pairs[0].0;
        let v = pairs[0].1;
        match spec_strip_team_prefix(k) {
            None => Err(FormError::UnexpectedField),
            Some(tid) => match spec_parse_i64(v) {
                None => Err(FormError::BadPoints),
                Some(p) => match spec_parse_i64(tid) {
                    None => Err(FormError::BadTeamId),
                    Some(t) => fold_vote_pairs(pairs.drop_first(), upsert(acc, t, p)),
                },
            },
        }
    }
}

/// The rest of a key that starts with `team-`.
pub open spec fn spec_strip_team_prefix(k: Seq<char>) -> Option<Seq<char>> {
    if k.len() >= 5 && k.subrange(0, 5) == "team-"@ {
        Some(k.subrange(5, k.len() as int))
    } else {
        None
    }
}

/// Strip the `team-` prefix from a field name.
pub fn strip_team_prefix(key: &str) -> (r: Option<&str>)
    ensures
        r is Some ==> spec_strip_team_prefix(key@) == Some(r->0@),
        r is None ==> spec_strip_team_prefix(key@) is None,
{
    proof {
        reveal_strlit("team-");
    }
    let n = key.unicode_len();
    if n < 5 {
        return None;
    }
    if key.get_char(0) as u32 == 116 && key.get_char(1) as u32 == 101 && key.get_char(2) as u32
        == 97 && key.get_char(3) as u32 == 109 && key.get_char(4) as u32 == 45 {
        assert(key@.subrange(0, 5) =~= "team-"@);
        Some(key.substring_char(5, n))
    } else {
        assert(key@.subrange(0, 5) != "team-"@) by {
            if key@.subrange(0, 5) == "team-"@ {
                assert(key@.subrange(0, 5)[0] == 't');
                assert(key@.subrange(0, 5)[1] == 'e');
                assert(key@.subrange(0, 5)[2] == 'a');
                assert(key@.subrange(0, 5)[3] == 'm');
                assert(key@.subrange(0, 5)[4] == '-');
            }
        }
        None
    }
}

/// Decode the vote form into a team-to-points mapping.
pub fn parse_vote_form(pairs: &Vec<(String, String)>) -> (r: Result<Vec<(i64, i64)>, FormError>)
    ensures
        r is Ok ==> fold_vote_pairs(pairs_view(pairs@), Seq::empty()) == Ok::<_, FormError>(
            (r->Ok_0)@,
        ) && distinct_keys((r->Ok_0)@),
        r is Err ==> fold_vote_pairs(pairs_view(pairs@), Seq::empty()) == Err::<
            Seq<(i64, i64)>,
            _,
        >(r->Err_0),
{
    let ghost pv = pairs_view(pairs@);
    let n = pairs.len();
    let mut acc: Vec<(i64, i64)> = Vec::new();
    let mut i: usize = 0;
    proof {
        assert(pv.subrange(0, n as int) =~= pv);
    }
    while i < n
        invariant
            n == pairs@.len(),
            i <= n,
            pv == pairs_view(pairs@),
            pv.len() == n,
            forall|j: int|
                0 <= j < n ==> #[trigger] pv[j] == (pairs@[j].0@, pairs@[j].1@),
            distinct_keys(acc@),
            fold_vote_pairs(pv, Seq::empty()) == fold_vote_pairs(
                pv.subrange(i as int, n as int),
                acc@,
            ),
        decreases n - i,
    {
        let ghost rest = pv.subrange(i as int, n as int);
        proof {
            assert(rest[0] == pv[i as int]);
            assert(rest.drop_first() =~= pv.subrange(i + 1 as int, n as int));
        }
        let key = &pairs[i].0;
        let value = &pairs[i].1;
        match strip_team_prefix(key.as_str()) {
            None => {
                return Err(FormError::UnexpectedField);
            },
            Some(tid_str) => {
                let points = parse_i64(value.as_str());
                match points {
                    None => {
                        return Err(FormError::BadPoints);
                    },
                    Some(p) => {
                        let team = parse_i64(tid_str);
                        match team {
                            None => {
                                return Err(FormError::BadTeamId);
                            },
                            Some(t) => {
                                upsert_vec(&mut acc, t, p);
                            },
                        }
                    },
                }
            },
        }
        i = i + 1;
    }
    proof {
        assert(pv.subrange(n as int, n as int) =~= Seq::<(Seq<char>, Seq<char>)>::empty());
    }
    Ok(acc)
}

// ---------------------------------------------------------------------
// The team-action forms: a single `team-id` field.
// ---------------------------------------------------------------------
/// The team id a form body denotes, folded left to right: every field
/// must be `team-id` with an integer value, later values replacing
/// earlier ones.
pub open spec fn fold_team_id(pairs: Seq<(Seq<char>, Seq<char>)>, acc: i64) -> Result<
    i64,
    FormError,
>
    decreases pairs.len(),
{
    if pairs.len() == 0 {
        Ok(acc)
    } else {
        let k = pairs[0].0;
        let v = pairs[0].1;
        if k == "team-id"@ {
            match spec_parse_i64(v) {
                None => Err(FormError::BadTeamId),
                Some(t) => fold_team_id(pairs.drop_first(), t),
            }
        } else {
            Err(FormError::UnexpectedField)
        }
    }
}

/// Decode a form that names one team; a form that names none is
/// rejected, and the team id zero counts as naming none.
pub fn get_body_team_id(pairs: &Vec<(String, String)>) -> (r: Result<i64, FormError>)
    ensures
        ({
            let f = fold_team_id(pairs_view(pairs@), 0);
            match f {
                Ok(t) => {
                    if t == 0 {
                        r == Err::<i64, FormError>(FormError::MissingTeamId)
                    } else {
                        r == Ok::<i64, FormError>(t)
                    }
                },
                Err(e) => r == Err::<i64, FormError>(e),
            }
        }),
{
    let ghost pv = pairs_view(pairs@);
    let n = pairs.len();
    let mut acc: i64 = 0;
    let mut i: usize = 0;
    proof {
        assert(pv.subrange(0, n as int) =~= pv);
    }
    while i < n
        invariant
            n == pairs@.len(),
            i <= n,
            pv == pairs_view(pairs@),
            pv.len() == n,
            forall|j: int|
                0 <= j < n ==> #[trigger] pv[j] == (pairs@[j].0@, pairs@[j].1@),
            fold_team_id(pv, 0) == fold_team_id(pv.subrange(i as int, n as int), acc),
        decreases n - i,
    {
        let ghost rest = pv.subrange(i as int, n as int);
        proof {
            assert(rest[0] == pv[i as int]);
            assert(rest.drop_first() =~= pv.subrange(i + 1 as int, n as int));
        }
        let key = &pairs[i].0;
        let value = &pairs[i].1;
        if str_eq(key.as_str(), "team-id") {
            match parse_i64(value.as_str()) {
                None => {
                    return Err(FormError::BadTeamId);
                },
                Some(t) => {
                    acc = t;
                },
            }
        } else {
            return Err(FormError::UnexpectedField);
        }
        i = i + 1;
    }
    proof {
        assert(pv.subrange(n as int, n as int) =~= Seq::<(Seq<char>, Seq<char>)>::empty());
    }
    if acc == 0 {
        Err(FormError::MissingTeamId)
    } else {
        Ok(acc)
    }
}

// ---------------------------------------------------------------------
// The create-team form: `team-name` and `description` fields.
// ---------------------------------------------------------------------
/// The name and description a create-team form denotes, folded left to
/// right with surrounding blanks trimmed; any other field rejects it.
pub open spec fn fold_create_team(
    pairs: Seq<(Seq<char>, Seq<char>)>,
    name: Seq<char>,
    desc: Seq<char>,
) -> Result<(Seq<char>, Seq<char>), FormError>
    decreases pairs.len(),
{
    if pairs.len() == 0 {
        Ok((name, desc))
    } else {
        let k = pairs[0].0;
        let v = pairs[0].1;
        if k == "team-name"@ {
            fold_create_team(pairs.drop_first(), spec_trim(v), desc)
        } else if k == "description"@ {
            fold_create_team(pairs.drop_first(), name, spec_trim(v))
        } else {
            Err(FormError::UnexpectedField)
        }
    }
}

/// Decode the create-team form into a trimmed name and description;
/// fields left out come back empty.
pub fn parse_create_team_form(pairs: &Vec<(String, String)>) -> (r: Result<
    (String, String),
    FormError,
>)
    ensures
        ({
            let f = fold_create_team(pairs_view(pairs@), Seq::empty(), Seq::empty());
            match f {
                Ok(nd) => r is Ok && ((r->Ok_0).0@, (r->Ok_0).1@) == nd,
                Err(e) => r == Err::<(String, String), FormError>(e),
            }
        }),
{
    let ghost pv = pairs_view(pairs@);
    let n = pairs.len();
    let mut name = String::new();
    let mut desc = String::new();
    let mut i: usize = 0;
    proof {
        assert(pv.subrange(0, n as int) =~= pv);
    }
    while i < n
        invariant
            n == pairs@.len(),
            i <= n,
            pv == pairs_view(pairs@),
            pv.len() == n,
            forall|j: int|
                0 <= j < n ==> #[trigger] pv[j] == (pairs@[j].0@, pairs@[j].1@),
            fold_create_team(pv, Seq::empty(), Seq::empty()) == fold_create_team(
                pv.subrange(i as int, n as int),
                name@,
                desc@,
            ),
        decreases n - i,
    {
        let ghost rest = pv.subrange(i as int, n as int);
        proof {
            assert(rest[0] == pv[i as int]);
            assert(rest.drop_first() =~= pv.subrange(i + 1 as int, n as int));
        }
        let key = &pairs[i].0;
        let value = &pairs[i].1;
        if str_eq(key.as_str(), "team-name") {
            name = trim_blanks(value.as_str());
        } else if str_eq(key.as_str(), "description") {
            desc = trim_blanks(value.as_str());
        } else {
            return Err(FormError::UnexpectedField);
        }
        i = i + 1;
    }
    proof {
        assert(pv.subrange(n as int, n as int) =~= Seq::<(Seq<char>, Seq<char>)>::empty());
    }
    Ok((name, desc))
}

} // verus!
