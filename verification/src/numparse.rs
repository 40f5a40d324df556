//! Parsing and printing of signed decimal integers.
//!
//! The grammar is the usual one: an optional `+` or `-` sign followed by
//! at least one decimal digit, and nothing else; the value must fit in a
//! signed 64-bit integer. Printing renders the canonical form: a `-`
//! for negative values, no leading zeros.
use vstd::prelude::*;

verus! {

use vstd::string::StrSliceExecFns;
use vstd::string::StringExecFns;

pub open spec fn is_digit_char(c: char) -> bool {
    48 <= (c as u32) <= 57
}

pub open spec fn digit_val(c: char) -> int {
    (c as u32) - 48
}

pub open spec fn all_digits(s: Seq<char>) -> bool {
    forall|i: int| 0 <= i < s.len() ==> is_digit_char(#[trigger] s[i])
}

/// The value of a digit string, most significant digit first.
pub open spec fn digits_val(s: Seq<char>) -> int
    decreases s.len(),
{
    if s.len() == 0 {
        0
    } else {
        digits_val(s.drop_last()) * 10 + digit_val(s.last())
    }
}

pub open spec fn pow10(n: nat) -> int
    decreases n,
{
    if n == 0 {
        1
    } else {
        10 * pow10((n - 1) as nat)
    }
}

/// The input starts with an explicit sign.
pub open spec fn has_sign(s: Seq<char>) -> bool {
    s.len() > 0 && ((s[0] as u32) == 43 || (s[0] as u32) == 45)
}

/// The digits of the input, the sign removed.
pub open spec fn digits_part(s: Seq<char>) -> Seq<char> {
    if has_sign(s) {
        s.drop_first()
    } else {
        s
    }
}

/// The input denotes a negative number.
pub open spec fn is_negative(s: Seq<char>) -> bool {
    s.len() > 0 && (s[0] as u32) == 45
}

/// What parsing a decimal integer returns: the signed value when the
/// input is an optional sign, digits only, and in the 64-bit range.
pub open spec fn spec_parse_i64(s: Seq<char>) -> Option<i64> {
    let digits = digits_part(s);
    if digits.len() == 0 || !all_digits(digits) {
        None
    } else {
        let m = digits_val(digits);
        let v = if is_negative(s) {
            -m
        } else {
            m
        };
        if i64::MIN <= v <= i64::MAX {
            Some(v as i64)
        } else {
            None
        }
    }
}

proof fn lemma_pow10_pos(n: nat)
    ensures
        pow10(n) >= 1,
    decreases n,
{
    if n > 0 {
        lemma_pow10_pos((n - 1) as nat);
    }
}

proof fn lemma_pow10_mono(a: nat, b: nat)
    requires
        a <= b,
    ensures
        1 <= pow10(a) <= pow10(b),
    decreases b,
{
    lemma_pow10_pos(a);
    if a < b {
        lemma_pow10_mono(a, (b - 1) as nat);
    }
}

/// A digit string's value is below ten to its length.
proof fn lemma_digits_val_bound(s: Seq<char>)
    requires
        all_digits(s),
    ensures
        0 <= digits_val(s) < pow10(s.len()),
    decreases s.len(),
{
    if s.len() > 0 {
        assert(all_digits(s.drop_last()));
        lemma_digits_val_bound(s.drop_last());
    }
}

/// A digit string that starts with a nonzero digit is at least ten to
/// one less than its length.
proof fn lemma_digits_val_lower(s: Seq<char>)
    requires
        all_digits(s),
        s.len() >= 1,
        (s[0] as u32) != 48,
    ensures
        digits_val(s) >= pow10((s.len() - 1) as nat),
    decreases s.len(),
{
    if s.len() == 1 {
        assert(digit_val(s[0]) >= 1);
        assert(pow10(0) == 1);
    } else {
        assert(all_digits(s.drop_last()));
        assert(s.drop_last()[0] == s[0]);
        lemma_digits_val_lower(s.drop_last());
        assert(digit_val(s.last()) >= 0);
        assert(pow10((s.len() - 1) as nat) == 10 * pow10((s.len() - 2) as nat));
        assert(digits_val(s.drop_last()) * 10 >= pow10((s.len() - 2) as nat) * 10);
    }
}

/// Leading zeros do not change a digit string's value.
proof fn lemma_digits_val_leading_zeros(z: Seq<char>, t: Seq<char>)
    requires
        forall|i: int| 0 <= i < z.len() ==> (#[trigger] z[i] as u32) == 48,
    ensures
        digits_val(z + t) == digits_val(t),
    decreases t.len(),
{
    if t.len() == 0 {
        assert(z + t =~= z);
        lemma_zeros_val(z);
    } else {
        assert((z + t).drop_last() =~= z + t.drop_last());
        assert((z + t).last() == t.last());
        lemma_digits_val_leading_zeros(z, t.drop_last());
    }
}

proof fn lemma_zeros_val(z: Seq<char>)
    requires
        forall|i: int| 0 <= i < z.len() ==> (#[trigger] z[i] as u32) == 48,
    ensures
        digits_val(z) == 0,
    decreases z.len(),
{
    if z.len() > 0 {
        lemma_zeros_val(z.drop_last());
    }
}

/// Parse a signed decimal 64-bit integer; anything else is rejected.
pub fn parse_i64(s: &str) -> (r: Option<i64>)
    ensures
        r == spec_parse_i64(s@),
{
    let n = s.unicode_len();
    let mut idx: usize = 0;
    let mut neg = false;
    if n > 0 {
        let c0 = s.get_char(0);
        if c0 as u32 == 43 {
            idx = 1;
        } else if c0 as u32 == 45 {
            neg = true;
            idx = 1;
        }
    }
    assert(idx == 1 <==> has_sign(s@));
    assert(neg == is_negative(s@));
    let ghost digits = digits_part(s@);
    assert(digits =~= s@.subrange(idx as int, n as int));
    if idx == n {
        return None;
    }
    // Every remaining character must be a digit.
    let mut i = idx;
    while i < n
        invariant
            n == s@.len(),
            idx <= i <= n,
            idx == 1 <==> has_sign(s@),
            digits == digits_part(s@),
            digits =~= s@.subrange(idx as int, n as int),
            forall|j: int| idx <= j < i ==> is_digit_char(#[trigger] s@[j]),
        decreases n - i,
    {
        let c = s.get_char(i);
        let cv = c as u32;
        if !(48 <= cv && cv <= 57) {
            assert(!all_digits(digits)) by {
                assert(digits[i - idx] == s@[i as int]);
            }
            return None;
        }
        i = i + 1;
    }
    assert(all_digits(digits)) by {
        assert(forall|j: int|
            0 <= j < digits.len() ==> digits[j] == s@[j + idx] && is_digit_char(
                #[trigger] s@[j + idx],
            ));
    }
    // Skip leading zeros; they carry no value.
    let mut zs = idx;
    while zs < n && s.get_char(zs) as u32 == 48
        invariant
            n == s@.len(),
            idx <= zs <= n,
            forall|j: int| idx <= j < zs ==> (#[trigger] s@[j] as u32) == 48,
        decreases n - zs,
    {
        zs = zs + 1;
    }
    proof {
        let z = s@.subrange(idx as int, zs as int);
        let t = s@.subrange(zs as int, n as int);
        assert(digits =~= z + t);
        lemma_digits_val_leading_zeros(z, t);
    }
    let ghost sig = s@.subrange(zs as int, n as int);
    assert(all_digits(sig)) by {
        assert(forall|j: int|
            0 <= j < sig.len() ==> sig[j] == s@[j + zs] && is_digit_char(#[trigger] s@[j + zs]));
    }
    // More than 19 significant digits cannot fit in 64 bits.
    if n - zs > 19 {
        proof {
            assert((sig[0] as u32) != 48);
            lemma_digits_val_lower(sig);
            lemma_pow10_mono(19, (sig.len() - 1) as nat);
            reveal_with_fuel(pow10, 21);
            assert(pow10(19) == 10000000000000000000);
        }
        return None;
    }
    // Accumulate the significant digits; at most 19 of them fit in u64.
    let mut acc: u64 = 0;
    let mut k = zs;
    while k < n
        invariant
            n == s@.len(),
            zs <= k <= n,
            n - zs <= 19,
            sig == s@.subrange(zs as int, n as int),
            forall|j: int| zs <= j < n ==> is_digit_char(#[trigger] s@[j]),
            acc == digits_val(s@.subrange(zs as int, k as int)),
            acc < pow10((k - zs) as nat),
        decreases n - k,
    {
        let c = s.get_char(k);
        assert(is_digit_char(c));
        let d: u64 = (c as u32 - 48) as u64;
        proof {
            lemma_pow10_mono(((k - zs) + 1) as nat, 19);
            reveal_with_fuel(pow10, 21);
            assert(pow10(19) == 10000000000000000000);
        }
        let new_acc: u64 = acc * 10 + d;
        proof {
            let pre = s@.subrange(zs as int, k as int);
            let post = s@.subrange(zs as int, k + 1 as int);
            assert(post.drop_last() =~= pre);
            assert(post.last() == s@[k as int]);
        }
        acc = new_acc;
        k = k + 1;
    }
    proof {
        assert(s@.subrange(zs as int, n as int) =~= sig);
        assert(acc == digits_val(digits));
        lemma_digits_val_bound(digits);
    }
    // Apply the sign and check the 64-bit range.
    if neg {
        if acc > 9223372036854775808u64 {
            return None;
        }
        if acc == 9223372036854775808u64 {
            return Some(i64::MIN);
        }
        Some(0i64 - (acc as i64))
    } else {
        if acc > 9223372036854775807u64 {
            return None;
        }
        Some(acc as i64)
    }
}

/// The decimal digit with value `d`.
pub open spec fn digit_char(d: nat) -> char {
    if d == 0 {
        '0'
    } else if d == 1 {
        '1'
    } else if d == 2 {
        '2'
    } else if d == 3 {
        '3'
    } else if d == 4 {
        '4'
    } else if d == 5 {
        '5'
    } else if d == 6 {
        '6'
    } else if d == 7 {
        '7'
    } else if d == 8 {
        '8'
    } else {
        '9'
    }
}

/// The decimal digits of a magnitude, most significant first, without
/// leading zeros.
pub open spec fn dec_digits(m: nat) -> Seq<char>
    decreases m,
{
    if m < 10 {
        seq![digit_char(m)]
    } else {
        dec_digits(m / 10).push(digit_char(m % 10))
    }
}

/// The canonical decimal form of a signed value.
pub open spec fn dec_str(v: i64) -> Seq<char> {
    if v < 0 {
        seq!['-'] + dec_digits((-(v as int)) as nat)
    } else {
        dec_digits(v as nat)
    }
}

/// The one-character string for a digit value.
fn digit_str(d: u64) -> (r: &'static str)
    requires
        d < 10,
    ensures
        r@ =~= seq![digit_char(d as nat)],
{
    proof {
        reveal_strlit("0");
        reveal_strlit("1");
        reveal_strlit("2");
        reveal_strlit("3");
        reveal_strlit("4");
        reveal_strlit("5");
        reveal_strlit("6");
        reveal_strlit("7");
        reveal_strlit("8");
        reveal_strlit("9");
    }
    if d == 0 {
        "0"
    } else if d == 1 {
        "1"
    } else if d == 2 {
        "2"
    } else if d == 3 {
        "3"
    } else if d == 4 {
        "4"
    } else if d == 5 {
        "5"
    } else if d == 6 {
        "6"
    } else if d == 7 {
        "7"
    } else if d == 8 {
        "8"
    } else {
        "9"
    }
}

/// Append the decimal digits of a magnitude.
fn push_digits(s: &mut String, m: u64)
    ensures
        final(s)@ == old(s)@ + dec_digits(m as nat),
    decreases m,
{
    if m < 10 {
        s.append(digit_str(m));
        proof {
            assert(old(s)@ + seq![digit_char(m as nat)] =~= old(s)@ + dec_digits(m as nat));
        }
    } else {
        push_digits(s, m / 10);
        s.append(digit_str(m % 10));
        proof {
            assert((old(s)@ + dec_digits((m / 10) as nat)) + seq![digit_char((m % 10) as nat)]
                =~= old(s)@ + dec_digits(m as nat));
        }
    }
}

proof fn lemma_dec_digits_shape(m: nat)
    ensures
        dec_digits(m).len() >= 1,
        all_digits(dec_digits(m)),
        digits_val(dec_digits(m)) == m,
    decreases m,
{
    if m < 10 {
        assert(is_digit_char(digit_char(m)));
        let s = seq![digit_char(m)];
        assert(s.len() == 1);
        assert(s.last() == digit_char(m));
        assert(s.drop_last() =~= Seq::<char>::empty());
        assert(digits_val(s.drop_last()) == 0);
        assert(digits_val(s) == digits_val(s.drop_last()) * 10 + digit_val(s.last()));
        assert(digit_val(digit_char(m)) == m);
    } else {
        lemma_dec_digits_shape(m / 10);
        let d = dec_digits(m / 10);
        let whole = d.push(digit_char(m % 10));
        assert(whole.drop_last() =~= d);
        assert(whole.last() == digit_char(m % 10));
        assert(is_digit_char(digit_char(m % 10)));
        assert(forall|i: int|
            0 <= i < whole.len() ==> is_digit_char(#[trigger] whole[i]) == if i < d.len() {
                is_digit_char(d[i])
            } else {
                is_digit_char(digit_char(m % 10))
            });
        assert(digits_val(whole) == (m / 10) * 10 + m % 10);
    }
}

/// Printing a value and parsing it back is the identity: the canonical
/// decimal form denotes exactly the value it was printed from.
pub proof fn lemma_decimal_roundtrip(v: i64)
    ensures
        spec_parse_i64(dec_str(v)) == Some(v),
{
    if v < 0 {
        let m = (-(v as int)) as nat;
        lemma_dec_digits_shape(m);
        let s = seq!['-'] + dec_digits(m);
        assert(s[0] == '-');
        assert(('-' as u32) == 45);
        assert(has_sign(s) && is_negative(s));
        assert(s.drop_first() =~= dec_digits(m));
        assert(digits_val(dec_digits(m)) == m);
        assert(i64::MIN <= -(m as int) <= i64::MAX);
    } else {
        let m = v as nat;
        lemma_dec_digits_shape(m);
        let s = dec_digits(m);
        assert(is_digit_char(s[0]));
        assert(!has_sign(s) && !is_negative(s));
    }
}

/// Render a signed value in its canonical decimal form.
pub fn i64_to_string(v: i64) -> (r: String)
    ensures
        r@ == dec_str(v),
{
    proof {
        reveal_strlit("-");
    }
    let mut s = String::new();
    if v < 0 {
        s.append("-");
        let m: u64 = (-(v as i128)) as u64;
        push_digits(&mut s, m);
        proof {
            assert((Seq::<char>::empty() + "-"@) + dec_digits(m as nat) =~= dec_str(v));
        }
    } else {
        let m: u64 = v as u64;
        push_digits(&mut s, m);
        proof {
            assert(Seq::<char>::empty() + dec_digits(m as nat) =~= dec_digits(m as nat));
        }
    }
    s
}

} // verus!
