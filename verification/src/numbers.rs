//! Decimal text: the textual form of integers, with a verified formatter
//! and verified parsers for the numeric product fields.
//!
//! Parsing follows the usual decimal grammar: an optional `+` or `-` sign,
//! then one or more ASCII digits, nothing else; the parse fails when the
//! value does not fit the target type. Formatting produces the canonical
//! form: no sign for zero or positive values, no leading zeros.

use vstd::prelude::*;
use vstd::string::StrSliceExecFns;
use vstd::string::StringExecFns;

verus! {

/// An ASCII decimal digit, `'0'` (code 48) through `'9'` (code 57).
pub open spec fn is_dec_digit(c: char) -> bool {
    48 <= c as int <= 57
}

/// The numeric value of an ASCII decimal digit.
pub open spec fn digit_val(c: char) -> nat
    recommends
        is_dec_digit(c),
{
    (c as int - 48) as nat
}

/// Every character of `s` is an ASCII decimal digit.
pub open spec fn all_dec_digits(s: Seq<char>) -> bool {
    forall|i: int| 0 <= i < s.len() ==> is_dec_digit(#[trigger] s[i])
}

/// The value of a digit string read most-significant first.
pub open spec fn digits_value(s: Seq<char>) -> nat
    decreases s.len(),
{
    if s.len() == 0 {
        0
    } else {
        digits_value(s.drop_last()) * 10 + digit_val(s.last())
    }
}

/// The digit character for a value below ten.
pub open spec fn dec_digit_char(d: nat) -> char
    recommends
        d < 10,
{
    if d == 0 {
        '0'
    } else if d == 1 {
        '1'
    } else if d == 2 {
        '2'
    } else if d == 3 {
        '3'
    } else if d == 4 {
        '4'
    } else if d == 5 {
        '5'
    } else if d == 6 {
        '6'
    } else if d == 7 {
        '7'
    } else if d == 8 {
        '8'
    } else {
        '9'
    }
}

/// The canonical digit string of a non-negative value: most significant
/// digit first, no leading zeros, `"0"` for zero.
pub open spec fn dec_digits(n: nat) -> Seq<char>
    decreases n,
{
    if n < 10 {
        seq![dec_digit_char(n)]
    } else {
        dec_digits(n / 10).push(dec_digit_char(n % 10))
    }
}

/// The canonical decimal text of an integer: a `-` sign for negative
/// values, then the digit string of the magnitude.
pub open spec fn int_text(v: int) -> Seq<char> {
    if v < 0 {
        seq!['-'] + dec_digits((-v) as nat)
    } else {
        dec_digits(v as nat)
    }
}

/// What parsing `s` as a decimal integer yields, before any range check:
/// an optional single `+` or `-` sign, then one or more digits; anything
/// else fails.
pub open spec fn parsed_int(s: Seq<char>) -> Option<int> {
    if s.len() > 0 && (s[0] == '+' || s[0] == '-') {
        let digits = s.subrange(1, s.len() as int);
        if digits.len() > 0 && all_dec_digits(digits) {
            if s[0] == '-' {
                Some(-(digits_value(digits) as int))
            } else {
                Some(digits_value(digits) as int)
            }
        } else {
            None
        }
    } else {
        if s.len() > 0 && all_dec_digits(s) {
            Some(digits_value(s) as int)
        } else {
            None
        }
    }
}

/// Parsing `s` as an `i32`: the decimal value when it exists and fits.
pub open spec fn parsed_i32(s: Seq<char>) -> Option<i32> {
    match parsed_int(s) {
        Some(v) => if i32::MIN <= v <= i32::MAX {
            Some(v as i32)
        } else {
            None
        },
        None => None,
    }
}

/// Parsing `s` as a `u32`: the decimal value when it exists and fits.
pub open spec fn parsed_u32(s: Seq<char>) -> Option<u32> {
    match parsed_int(s) {
        Some(v) => if 0 <= v <= u32::MAX {
            Some(v as u32)
        } else {
            None
        },
        None => None,
    }
}

/// Appending one digit multiplies the value by ten and adds the digit.
pub(crate) proof fn lemma_digits_value_push(t: Seq<char>, c: char)
    ensures
        digits_value(t.push(c)) == digits_value(t) * 10 + digit_val(c),
{
    assert(t.push(c).drop_last() =~= t);
    assert(t.push(c).last() == c);
}

/// The value of a digit string is at least the value of any of its
/// prefixes: later digits only scale the prefix up.
pub(crate) proof fn lemma_digits_value_prefix(s: Seq<char>, j: int)
    requires
        0 <= j <= s.len(),
    ensures
        digits_value(s) >= digits_value(s.subrange(0, j)),
    decreases s.len() - j,
{
    if j == s.len() {
        assert(s.subrange(0, j) =~= s);
    } else {
        let t = s.subrange(0, j);
        let t1 = s.subrange(0, j + 1);
        assert(t1 =~= t.push(s[j]));
        lemma_digits_value_push(t, s[j]);
        assert(digits_value(t1) >= digits_value(t));
        lemma_digits_value_prefix(s, j + 1);
    }
}

/// The canonical digit string of `n` is made of digits, is never empty,
/// and reads back as `n`.
pub(crate) proof fn lemma_dec_digits_value(n: nat)
    ensures
        all_dec_digits(dec_digits(n)),
        dec_digits(n).len() >= 1,
        digits_value(dec_digits(n)) == n,
    decreases n,
{
    if n < 10 {
        let s = dec_digits(n);
        assert(s == seq![dec_digit_char(n)]);
        assert(s.last() == dec_digit_char(n));
        assert(s.drop_last() =~= Seq::<char>::empty());
        assert(digits_value(s) == digits_value(s.drop_last()) * 10 + digit_val(s.last()));
        assert(digits_value(s.drop_last()) == 0);
        assert(digit_val(dec_digit_char(n)) == n);
    } else {
        lemma_dec_digits_value(n / 10);
        lemma_digits_value_push(dec_digits(n / 10), dec_digit_char(n % 10));
        assert(digits_value(dec_digits(n)) == (n / 10) * 10 + n % 10);
        assert((n / 10) * 10 + n % 10 == n) by {
            vstd::arithmetic::div_mod::lemma_fundamental_div_mod(n as int, 10);
        }
        assert forall|i: int| 0 <= i < dec_digits(n).len() implies is_dec_digit(
            #[trigger] dec_digits(n)[i],
        ) by {
            if i < dec_digits(n / 10).len() {
                assert(dec_digits(n)[i] == dec_digits(n / 10)[i]);
            } else {
                assert(dec_digits(n)[i] == dec_digit_char(n % 10));
            }
        }
    }
}

/// Round trip: the canonical decimal text of an integer parses back to
/// the same integer.
pub proof fn lemma_parsed_int_of_int_text(v: int)
    ensures
        parsed_int(int_text(v)) == Some(v),
{
    if v < 0 {
        let digits = dec_digits((-v) as nat);
        lemma_dec_digits_value((-v) as nat);
        let s = int_text(v);
        assert(s[0] == '-');
        assert(s.subrange(1, s.len() as int) =~= digits);
    } else {
        let s = int_text(v);
        lemma_dec_digits_value(v as nat);
        assert(is_dec_digit(s[0]));
        assert(s[0] != '+' && s[0] != '-');
    }
}

/// Round trip at `i32`: formatting any `i32` and parsing it back yields
/// the same value.
pub proof fn lemma_parsed_i32_round_trip(v: i32)
    ensures
        parsed_i32(int_text(v as int)) == Some(v),
{
    lemma_parsed_int_of_int_text(v as int);
}

/// Round trip at `u32`: formatting any `u32` and parsing it back yields
/// the same value.
pub proof fn lemma_parsed_u32_round_trip(v: u32)
    ensures
        parsed_u32(int_text(v as int)) == Some(v),
{
    lemma_parsed_int_of_int_text(v as int);
}

/// A one-character string slice for a digit value below ten.
fn digit_str(d: u64) -> (s: &'static str)
    requires
        d < 10,
    ensures
        s@ == seq![dec_digit_char(d as nat)],
{
    proof {
        reveal_strlit("0");
        reveal_strlit("1");
        reveal_strlit("2");
        reveal_strlit("3");
        reveal_strlit("4");
        reveal_strlit("5");
        reveal_strlit("6");
        reveal_strlit("7");
        reveal_strlit("8");
        reveal_strlit("9");
    }
    let s: &'static str = match d {
        0 => "0",
        1 => "1",
        2 => "2",
        3 => "3",
        4 => "4",
        5 => "5",
        6 => "6",
        7 => "7",
        8 => "8",
        _ => "9",
    };
    proof {
        assert(s@ =~= seq![dec_digit_char(d as nat)]);
    }
    s
}

/// The digit value of a character, when it is one.
fn digit_of_char(c: char) -> (r: Option<u64>)
    ensures
        match r {
            Some(d) => is_dec_digit(c) && d < 10 && d == digit_val(c),
            None => !is_dec_digit(c),
        },
{
    let u = c as u32;
    if 48 <= u && u <= 57 {
        Some((u - 48) as u64)
    } else {
        None
    }
}

/// Reads the digits of `s` from position `start` to the end, capped at
/// `u32::MAX`: `None` when a non-digit appears or the value is too large
/// for any field this library parses.
fn digits_from(s: &str, start: usize) -> (r: Option<u64>)
    requires
        start <= s@.len(),
    ensures
        ({
            let digits = s@.subrange(start as int, s@.len() as int);
            match r {
                Some(v) => all_dec_digits(digits) && v == digits_value(digits) && v
                    <= u32::MAX as u64,
                None => !all_dec_digits(digits) || digits_value(digits) > u32::MAX as nat,
            }
        }),
{
    let ghost digits = s@.subrange(start as int, s@.len() as int);
    let len = s.unicode_len();
    let mut i: usize = start;
    let mut acc: u64 = 0;
    while i < len
        invariant
            start <= i <= len,
            len == s@.len(),
            digits == s@.subrange(start as int, len as int),
            all_dec_digits(s@.subrange(start as int, i as int)),
            acc == digits_value(s@.subrange(start as int, i as int)),
            acc <= u32::MAX as u64,
        decreases len - i,
    {
        let c = s.get_char(i);
        match digit_of_char(c) {
            None => {
                proof {
                    assert(digits[i - start] == s@[i as int]);
                }
                return None;
            },
            Some(d) => {
                let acc2: u64 = acc * 10 + d;
                proof {
                    assert(s@.subrange(start as int, i + 1) =~= s@.subrange(
                        start as int,
                        i as int,
                    ).push(s@[i as int]));
                    lemma_digits_value_push(s@.subrange(start as int, i as int), s@[i as int]);
                }
                if acc2 > 0xFFFF_FFFF {
                    proof {
                        assert(digits.subrange(0, i + 1 - start) =~= s@.subrange(
                            start as int,
                            i + 1,
                        ));
                        lemma_digits_value_prefix(digits, i + 1 - start);
                    }
                    return None;
                }
                acc = acc2;
                i = i + 1;
            },
        }
    }
    proof {
        assert(s@.subrange(start as int, i as int) =~= digits);
    }
    Some(acc)
}

/// Parses `s` as a decimal `i32`, exactly as `parsed_i32` describes.
pub fn parse_i32(s: &str) -> (r: Option<i32>)
    ensures
        r == parsed_i32(s@),
{
    let len = s.unicode_len();
    if len == 0 {
        return None;
    }
    let first = s.get_char(0);
    let (neg, start): (bool, usize) = if first == '-' {
        (true, 1)
    } else if first == '+' {
        (false, 1)
    } else {
        (false, 0)
    };
    if start == len {
        return None;
    }
    proof {
        if start == 0 {
            assert(s@.subrange(0, len as int) =~= s@);
        }
    }
    match digits_from(s, start) {
        None => None,
        Some(v) => {
            if neg {
                if v > 2147483648 {
                    None
                } else if v == 2147483648 {
                    Some(i32::MIN)
                } else {
                    Some(-(v as i32))
                }
            } else {
                if v > 2147483647 {
                    None
                } else {
                    Some(v as i32)
                }
            }
        },
    }
}

/// Parses `s` as a decimal `u32`, exactly as `parsed_u32` describes.
pub fn parse_u32(s: &str) -> (r: Option<u32>)
    ensures
        r == parsed_u32(s@),
{
    let len = s.unicode_len();
    if len == 0 {
        return None;
    }
    let first = s.get_char(0);
    let (neg, start): (bool, usize) = if first == '-' {
        (true, 1)
    } else if first == '+' {
        (false, 1)
    } else {
        (false, 0)
    };
    if start == len {
        return None;
    }
    proof {
        if start == 0 {
            assert(s@.subrange(0, len as int) =~= s@);
        }
    }
    match digits_from(s, start) {
        None => None,
        Some(v) => {
            if neg {
                if v == 0 {
                    Some(0)
                } else {
                    None
                }
            } else {
                Some(v as u32)
            }
        },
    }
}

/// The digit characters of the collected remainders, least significant
/// remainder last in `ds`, read back most significant first.
spec fn rev_digit_chars(ds: Seq<u64>) -> Seq<char>
    decreases ds.len(),
{
    if ds.len() == 0 {
        Seq::empty()
    } else {
        seq![dec_digit_char(ds.last() as nat)] + rev_digit_chars(ds.drop_last())
    }
}

/// Formats `v` as its canonical decimal text.
pub fn format_i64(v: i64) -> (s: String)
    ensures
        s@ == int_text(v as int),
{
    let ghost m: nat = if v < 0 {
        (-(v as int)) as nat
    } else {
        v as nat
    };
    let mut n: u64 = if v == i64::MIN {
        9223372036854775808u64
    } else if v < 0 {
        (-v) as u64
    } else {
        v as u64
    };
    assert(n as nat == m);
    let mut rev: Vec<u64> = Vec::new();
    while n >= 10
        invariant
            dec_digits(m) =~= dec_digits(n as nat) + rev_digit_chars(rev@),
            forall|k: int| 0 <= k < rev@.len() ==> #[trigger] rev@[k] < 10,
        decreases n,
    {
        let d: u64 = n % 10;
        proof {
            assert(rev@.push(d).last() == d);
            assert(rev@.push(d).drop_last() =~= rev@);
            assert(rev_digit_chars(rev@.push(d)) == seq![dec_digit_char(d as nat)]
                + rev_digit_chars(rev@));
            assert(dec_digits(n as nat) == dec_digits(n as nat / 10).push(
                dec_digit_char(n as nat % 10),
            ));
            assert(dec_digits(n as nat / 10) + (seq![dec_digit_char(d as nat)] + rev_digit_chars(
                rev@,
            )) =~= (dec_digits(n as nat / 10).push(dec_digit_char(d as nat))) + rev_digit_chars(
                rev@,
            ));
        }
        rev.push(d);
        n = n / 10;
    }
    proof {
        assert(rev@.push(n).last() == n);
        assert(rev@.push(n).drop_last() =~= rev@);
        assert(dec_digits(n as nat) == seq![dec_digit_char(n as nat)]);
        assert(dec_digits(m) =~= rev_digit_chars(rev@.push(n)));
    }
    rev.push(n);
    let mut out: String = if v < 0 {
        let mut sign = String::new();
        sign.append("-");
        sign
    } else {
        String::new()
    };
    let ghost prefix: Seq<char> = if v < 0 {
        seq!['-']
    } else {
        Seq::empty()
    };
    proof {
        reveal_strlit("-");
        assert(out@ =~= prefix);
    }
    while rev.len() > 0
        invariant
            forall|k: int| 0 <= k < rev@.len() ==> #[trigger] rev@[k] < 10,
            out@ + rev_digit_chars(rev@) =~= prefix + dec_digits(m),
        decreases rev@.len(),
    {
        let ghost before = rev@;
        let d = match rev.pop() {
            Some(d) => d,
            None => {
                proof {
                    assert(false);
                }
                0
            },
        };
        out.append(digit_str(d));
        proof {
            assert(before.drop_last() =~= rev@);
            assert(rev_digit_chars(before) == seq![dec_digit_char(d as nat)] + rev_digit_chars(
                rev@,
            ));
        }
    }
    proof {
        assert(rev_digit_chars(rev@) =~= Seq::<char>::empty());
        assert(out@ =~= prefix + dec_digits(m));
        assert(out@ =~= int_text(v as int));
    }
    out
}

} // verus!
