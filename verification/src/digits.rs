//! Decimal digit strings: parsing and rendering of unsigned integers.
//!
//! Process id tokens in a listing and the selection typed at the
//! disambiguation prompt are both read with [`parse_u64`]; listing lines are
//! rendered with [`u64_to_string`]. The two are exact inverses on canonical
//! digit strings, which is what makes a printed index a valid selection.

use vstd::prelude::*;
use vstd::string::*;

verus! {

/// `c` is a decimal digit character (`'0'..='9'`).
pub open spec fn is_digit(c: char) -> bool {
    48 <= c as u32 && c as u32 <= 57
}

/// Numeric value of a single digit character.
pub open spec fn digit_val(c: char) -> nat {
    (c as u32 - 48) as nat
}

/// Every character of `s` is a decimal digit.
pub open spec fn all_digits(s: Seq<char>) -> bool {
    forall|i: int| 0 <= i < s.len() ==> is_digit(s[i])
}

/// Value of a digit string read in base 10, most significant digit first.
pub open spec fn dec_val(s: Seq<char>) -> nat
    decreases s.len(),
{
    if s.len() == 0 {
        0
    } else {
        dec_val(s.drop_last()) * 10 + digit_val(s.last())
    }
}

/// The digit character for a value below ten.
pub open spec fn digit_char(d: nat) -> char {
    ((d + 48) as u8) as char
}

/// The canonical decimal rendering of `n`: no leading zeros, `"0"` for zero.
pub open spec fn dec_digits(n: nat) -> Seq<char>
    decreases n,
{
    if n < 10 {
        seq![digit_char(n)]
    } else {
        dec_digits(n / 10).push(digit_char(n % 10))
    }
}

/// `s` is the decimal rendering of some `u64`: non-empty, all digits, and
/// small enough to fit.
pub open spec fn parses_to_u64(s: Seq<char>) -> bool {
    s.len() > 0 && all_digits(s) && dec_val(s) <= u64::MAX
}

/// Extending a digit string on the right never decreases its value.
proof fn lemma_prefix_value_le(s: Seq<char>, i: int, j: int)
    requires
        0 <= i <= j <= s.len(),
    ensures
        dec_val(s.subrange(0, i)) <= dec_val(s.subrange(0, j)),
    decreases j - i,
{
    if i < j {
        lemma_prefix_value_le(s, i, j - 1);
        let p = s.subrange(0, j - 1);
        let q = s.subrange(0, j);
        assert(q.drop_last() =~= p);
        assert(dec_val(q) == dec_val(p) * 10 + digit_val(q.last()));
        assert(dec_val(p) <= dec_val(p) * 10);
    }
}

/// Parse a string of decimal digits into a `u64`.
///
/// Succeeds exactly on non-empty all-digit strings whose value fits in a
/// `u64`, and then returns that value.
pub fn parse_u64(s: &str) -> (r: Option<u64>)
    ensures
        r is Some <==> parses_to_u64(s@),
        r matches Some(n) ==> n == dec_val(s@),
{
    let len = s.unicode_len();
    if len == 0 {
        return None;
    }
    let mut acc: u64 = 0;
    let mut i: usize = 0;
    while i < len
        invariant
            0 <= i <= len,
            len == s@.len(),
            all_digits(s@.subrange(0, i as int)),
            acc == dec_val(s@.subrange(0, i as int)),
        decreases len - i,
    {
        let c = s.get_char(i);
        let u = c as u32;
        if u < 48 || u > 57 {
            assert(!is_digit(s@[i as int]));
            return None;
        }
        let d = (u - 48) as u64;
        let ghost prefix = s@.subrange(0, i as int);
        let ghost extended = s@.subrange(0, i as int + 1);
        proof {
            assert(extended.drop_last() =~= prefix);
            assert(extended.last() == s@[i as int]);
        }
        let next = match acc.checked_mul(10) {
            Some(m) => m.checked_add(d),
            None => None,
        };
        match next {
            Some(v) => {
                acc = v;
            },
            None => {
                proof {
                    assert(dec_val(extended) > u64::MAX);
                    lemma_prefix_value_le(s@, i as int + 1, len as int);
                    assert(s@.subrange(0, len as int) =~= s@);
                }
                return None;
            },
        }
        i = i + 1;
    }
    proof {
        assert(s@.subrange(0, len as int) =~= s@);
    }
    Some(acc)
}

/// A one-character string slice for a digit value.
fn digit_str(d: u64) -> (r: &'static str)
    requires
        d < 10,
    ensures
        r@ =~= seq![digit_char(d as nat)],
{
    proof {
        reveal_strlit("0");
        reveal_strlit("1");
        reveal_strlit("2");
        reveal_strlit("3");
        reveal_strlit("4");
        reveal_strlit("5");
        reveal_strlit("6");
        reveal_strlit("7");
        reveal_strlit("8");
        reveal_strlit("9");
    }
    match d {
        0 => "0",
        1 => "1",
        2 => "2",
        3 => "3",
        4 => "4",
        5 => "5",
        6 => "6",
        7 => "7",
        8 => "8",
        _ => "9",
    }
}

/// Render `n` in decimal, the inverse of [`parse_u64`] on its range.
pub fn u64_to_string(n: u64) -> (r: String)
    ensures
        r@ == dec_digits(n as nat),
    decreases n,
{
    let d = n % 10;
    let last = digit_str(d);
    if n < 10 {
        String::from_str(last)
    } else {
        let prefix = u64_to_string(n / 10);
        let whole = prefix.concat(last);
        proof {
            assert(whole@ =~= dec_digits((n / 10) as nat).push(digit_char((n % 10) as nat)));
        }
        whole
    }
}

/// The decimal rendering of a possibly negative number: a minus sign
/// followed by the magnitude's digits.
pub open spec fn signed_digits(n: int) -> Seq<char> {
    if n >= 0 {
        dec_digits(n as nat)
    } else {
        seq!['-'] + dec_digits((-n) as nat)
    }
}

/// Render a signed number in decimal.
pub fn i64_to_string(n: i64) -> (r: String)
    ensures
        r@ == signed_digits(n as int),
{
    if n >= 0 {
        u64_to_string(n as u64)
    } else {
        let mag: u64 = ((-(n + 1)) as u64) + 1;
        let sign = String::from_str("-");
        proof {
            reveal_strlit("-");
            assert(sign@ =~= seq!['-']);
        }
        let r = sign.concat(u64_to_string(mag).as_str());
        proof {
            assert(r@ =~= signed_digits(n as int));
        }
        r
    }
}

/// The rendering of `n` is a non-empty digit string that parses back to `n`.
///
/// This is what lets a caller type a printed candidate index back in as a
/// selection: rendering and parsing are inverse to each other.
pub proof fn lemma_dec_digits_round_trip(n: nat)
    ensures
        dec_digits(n).len() > 0,
        all_digits(dec_digits(n)),
        dec_val(dec_digits(n)) == n,
    decreases n,
{
    if n < 10 {
        assert(dec_val(dec_digits(n)) == dec_val(seq![digit_char(n)]));
        assert(seq![digit_char(n)].drop_last() =~= Seq::<char>::empty());
        assert(dec_val(Seq::<char>::empty()) == 0);
        assert(dec_val(seq![digit_char(n)]) == digit_val(digit_char(n)));
    } else {
        lemma_dec_digits_round_trip(n / 10);
        let s = dec_digits(n);
        let p = dec_digits(n / 10);
        assert(s == p.push(digit_char(n % 10)));
        assert(s.drop_last() =~= p);
        assert(s.last() == digit_char(n % 10));
        assert(dec_val(s) == dec_val(p) * 10 + digit_val(digit_char(n % 10)));
        assert(dec_val(p) == n / 10);
        assert(digit_val(digit_char(n % 10)) == n % 10);
    }
}

} // verus!
