//! Decimal text codec for the version counter and the numeric record fields.
//!
//! Numbers travel through the store as their decimal text form. `dec_of_nat`
//! and `dec_of_int` are the canonical renderings; `dec_value` and
//! `signed_dec_value` give the value of a digit string. The executable
//! functions are proved against these spec functions, including the round
//! trip: parsing a rendered number gives the number back.

use vstd::prelude::*;
use vstd::string::*;

verus! {

/// A decimal digit, by code point.
pub open spec fn is_dec_digit(c: char) -> bool {
    48 <= c as int <= 57
}

/// The numeric value of a digit character.
pub open spec fn digit_value(c: char) -> int {
    c as int - 48
}

pub open spec fn all_dec_digits(s: Seq<char>) -> bool {
    forall|i: int| 0 <= i < s.len() ==> is_dec_digit(#[trigger] s[i])
}

/// Value of a digit string, most significant digit first.
pub open spec fn dec_value(s: Seq<char>) -> int
    decreases s.len(),
{
    if s.len() == 0 {
        0
    } else {
        dec_value(s.drop_last()) * 10 + digit_value(s.last())
    }
}

/// The digit character for a value below ten.
pub open spec fn digit_char(d: int) -> char {
    if d == 0 {
        '0'
    } else if d == 1 {
        '1'
    } else if d == 2 {
        '2'
    } else if d == 3 {
        '3'
    } else if d == 4 {
        '4'
    } else if d == 5 {
        '5'
    } else if d == 6 {
        '6'
    } else if d == 7 {
        '7'
    } else if d == 8 {
        '8'
    } else {
        '9'
    }
}

/// Canonical decimal rendering of a natural number: no sign, no leading zero.
pub open spec fn dec_of_nat(n: nat) -> Seq<char>
    decreases n,
{
    if n < 10 {
        seq![digit_char(n as int)]
    } else {
        dec_of_nat(n / 10).push(digit_char((n % 10) as int))
    }
}

/// Canonical decimal rendering of an integer: a minus sign where negative.
pub open spec fn dec_of_int(v: int) -> Seq<char> {
    if v >= 0 {
        dec_of_nat(v as nat)
    } else {
        seq!['-'] + dec_of_nat((-v) as nat)
    }
}

/// What an optionally-signed digit string denotes; `None` where the text is
/// not a well-formed decimal number.
pub open spec fn signed_dec_value(s: Seq<char>) -> Option<int> {
    if s.len() >= 2 && s[0] == '-' {
        let t = s.subrange(1, s.len() as int);
        if all_dec_digits(t) {
            Some(-dec_value(t))
        } else {
            None
        }
    } else if s.len() > 0 && all_dec_digits(s) {
        Some(dec_value(s))
    } else {
        None
    }
}

pub proof fn lemma_dec_value_snoc(s: Seq<char>, i: int)
    requires
        0 <= i < s.len(),
    ensures
        dec_value(s.subrange(0, i + 1)) == dec_value(s.subrange(0, i)) * 10 + digit_value(s[i]),
{
    let t = s.subrange(0, i + 1);
    assert(t.drop_last() =~= s.subrange(0, i));
    assert(t.last() == s[i]);
}

pub proof fn lemma_dec_value_nonneg(s: Seq<char>)
    requires
        all_dec_digits(s),
    ensures
        dec_value(s) >= 0,
    decreases s.len(),
{
    if s.len() > 0 {
        assert(is_dec_digit(s.last()));
        assert(all_dec_digits(s.drop_last())) by {
            assert(forall|i: int|
                0 <= i < s.drop_last().len() ==> #[trigger] s.drop_last()[i] == s[i]);
        }
        lemma_dec_value_nonneg(s.drop_last());
    }
}

/// A digit string is worth at least any of its prefixes.
pub proof fn lemma_dec_value_prefix_le(s: Seq<char>, i: int)
    requires
        all_dec_digits(s),
        0 <= i <= s.len(),
    ensures
        dec_value(s.subrange(0, i)) <= dec_value(s),
    decreases s.len() - i,
{
    if i == s.len() {
        assert(s.subrange(0, i) =~= s);
    } else {
        lemma_dec_value_snoc(s, i);
        assert(all_dec_digits(s.subrange(0, i)));
        lemma_dec_value_nonneg(s.subrange(0, i));
        assert(is_dec_digit(s[i]));
        lemma_dec_value_prefix_le(s, i + 1);
    }
}

/// The rendering of a natural number is made of digits and is never empty.
pub proof fn lemma_dec_of_nat_digits(n: nat)
    ensures
        dec_of_nat(n).len() > 0,
        all_dec_digits(dec_of_nat(n)),
    decreases n,
{
    if n >= 10 {
        lemma_dec_of_nat_digits(n / 10);
    }
}

/// The digit characters evaluate back to their values.
pub proof fn lemma_digit_char_value(d: int)
    requires
        0 <= d < 10,
    ensures
        digit_value(digit_char(d)) == d,
        is_dec_digit(digit_char(d)),
{
}

/// Rendering then evaluating a natural number gives the number back.
pub proof fn lemma_dec_of_nat_value(n: nat)
    ensures
        dec_value(dec_of_nat(n)) == n,
    decreases n,
{
    if n < 10 {
        lemma_digit_char_value(n as int);
        let s = dec_of_nat(n);
        assert(s.len() == 1);
        assert(s.last() == digit_char(n as int));
        assert(s.drop_last() =~= Seq::<char>::empty());
        assert(dec_value(s.drop_last()) == 0);
        assert(dec_value(s) == digit_value(digit_char(n as int)));
    } else {
        lemma_dec_of_nat_value(n / 10);
        lemma_digit_char_value((n % 10) as int);
        let s = dec_of_nat(n / 10);
        let t = dec_of_nat(n);
        assert(t == s.push(digit_char((n % 10) as int)));
        assert(t.drop_last() =~= s);
        assert(t.last() == digit_char((n % 10) as int));
        assert(dec_value(t) == dec_value(s) * 10 + (n % 10));
        vstd::arithmetic::div_mod::lemma_fundamental_div_mod(n as int, 10);
    }
}

/// Rendering then parsing an integer gives the integer back.
pub proof fn lemma_signed_dec_round_trip(v: int)
    ensures
        signed_dec_value(dec_of_int(v)) == Some(v),
{
    if v >= 0 {
        lemma_dec_of_nat_digits(v as nat);
        lemma_dec_of_nat_value(v as nat);
        let s = dec_of_int(v);
        assert(is_dec_digit(s[0]));
    } else {
        lemma_dec_of_nat_digits((-v) as nat);
        lemma_dec_of_nat_value((-v) as nat);
        let s = dec_of_int(v);
        let m = dec_of_nat((-v) as nat);
        assert(s.subrange(1, s.len() as int) =~= m);
    }
}

const U64_MAX_DIV_10: u64 = 1844674407370955161;

/// Parse an unsigned decimal digit string. Returns the value exactly when the
/// text is one or more digits whose value fits in a `u64`.
pub fn parse_u64_dec(s: &str) -> (r: Option<u64>)
    ensures
        match r {
            Some(v) => s@.len() > 0 && all_dec_digits(s@) && dec_value(s@) == v as int,
            None => !(s@.len() > 0 && all_dec_digits(s@) && dec_value(s@) <= u64::MAX),
        },
{
    let len = s.unicode_len();
    if len == 0 {
        return None;
    }
    let mut i: usize = 0;
    let mut acc: u64 = 0;
    while i < len
        invariant
            0 <= i <= len,
            len == s@.len(),
            all_dec_digits(s@.subrange(0, i as int)),
            acc as int == dec_value(s@.subrange(0, i as int)),
        decreases len - i,
    {
        let c = s.get_char(i);
        let u = c as u32;
        if u < 48 || u > 57 {
            assert(!is_dec_digit(s@[i as int]));
            return None;
        }
        let d = (u - 48) as u64;
        assert(d as int == digit_value(s@[i as int]));
        if acc > U64_MAX_DIV_10 || (acc == U64_MAX_DIV_10 && d > 5) {
            proof {
                if s@.len() > 0 && all_dec_digits(s@) {
                    lemma_dec_value_snoc(s@, i as int);
                    lemma_dec_value_prefix_le(s@, i as int + 1);
                }
            }
            return None;
        }
        proof {
            lemma_dec_value_snoc(s@, i as int);
        }
        acc = acc * 10 + d;
        i = i + 1;
    }
    proof {
        assert(s@.subrange(0, i as int) =~= s@);
    }
    Some(acc)
}

/// Parse an optionally-signed decimal digit string. Returns the value exactly
/// when the text denotes a number in the range of an `i64`.
pub fn parse_i64_dec(s: &str) -> (r: Option<i64>)
    ensures
        match r {
            Some(v) => signed_dec_value(s@) == Some(v as int),
            None => match signed_dec_value(s@) {
                Some(v) => v < i64::MIN || v > i64::MAX,
                None => true,
            },
        },
{
    let len = s.unicode_len();
    if len >= 2 && s.get_char(0) == '-' {
        let rest = s.substring_char(1, len);
        match parse_u64_dec(rest) {
            Some(m) => {
                proof {
                    lemma_dec_value_nonneg(rest@);
                }
                if m <= 9223372036854775807u64 {
                    Some(-(m as i64))
                } else if m == 9223372036854775808u64 {
                    Some(i64::MIN)
                } else {
                    None
                }
            },
            None => {
                proof {
                    if all_dec_digits(rest@) && rest@.len() > 0 {
                        lemma_dec_value_nonneg(rest@);
                    }
                }
                None
            },
        }
    } else {
        match parse_u64_dec(s) {
            Some(m) => {
                if m <= 9223372036854775807u64 {
                    Some(m as i64)
                } else {
                    None
                }
            },
            None => None,
        }
    }
}

/// One digit as text.
fn digit_str(d: u64) -> (r: &'static str)
    requires
        d < 10,
    ensures
        r@ =~= seq![digit_char(d as int)],
{
    proof {
        reveal_strlit("0");
        reveal_strlit("1");
        reveal_strlit("2");
        reveal_strlit("3");
        reveal_strlit("4");
        reveal_strlit("5");
        reveal_strlit("6");
        reveal_strlit("7");
        reveal_strlit("8");
        reveal_strlit("9");
    }
    match d {
        0 => "0",
        1 => "1",
        2 => "2",
        3 => "3",
        4 => "4",
        5 => "5",
        6 => "6",
        7 => "7",
        8 => "8",
        _ => "9",
    }
}

/// Render a `u64` as canonical decimal text.
pub fn u64_to_dec(n: u64) -> (r: String)
    ensures
        r@ == dec_of_nat(n as nat),
    decreases n,
{
    if n < 10 {
        String::from_str(digit_str(n))
    } else {
        let mut s = u64_to_dec(n / 10);
        s.append(digit_str(n % 10));
        proof {
            assert(dec_of_nat(n as nat) =~= dec_of_nat((n / 10) as nat).push(
                digit_char((n % 10) as int),
            ));
            assert(s@ =~= dec_of_nat(n as nat));
        }
        s
    }
}

/// Render an `i64` as canonical decimal text.
pub fn i64_to_dec(v: i64) -> (r: String)
    ensures
        r@ == dec_of_int(v as int),
{
    if v >= 0 {
        u64_to_dec(v as u64)
    } else {
        let mag: u64 = ((-(v + 1)) as u64) + 1;
        assert(mag as int == -(v as int));
        let mut s = String::from_str("-");
        s.append(u64_to_dec(mag).as_str());
        proof {
            reveal_strlit("-");
            assert(s@ =~= dec_of_int(v as int));
        }
        s
    }
}

} // verus!
