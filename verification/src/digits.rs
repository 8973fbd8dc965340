//! Decimal formatting and parsing, with exact specifications.
//!
//! Cache keys and replay markers embed numbers in strings, and the access
//! gate reads a timestamp out of a query parameter; both directions are
//! verified against the spec-level value functions below.

use vstd::prelude::*;

verus! {

/// The character for one decimal digit.
pub open spec fn digit_char(d: nat) -> char {
    if d == 0 {
        '0'
    } else if d == 1 {
        '1'
    } else if d == 2 {
        '2'
    } else if d == 3 {
        '3'
    } else if d == 4 {
        '4'
    } else if d == 5 {
        '5'
    } else if d == 6 {
        '6'
    } else if d == 7 {
        '7'
    } else if d == 8 {
        '8'
    } else {
        '9'
    }
}

/// Decimal digit sequence of a natural number, most significant digit first.
pub open spec fn dec_seq(n: nat) -> Seq<char>
    decreases n,
{
    if n < 10 {
        seq![digit_char(n)]
    } else {
        dec_seq(n / 10).push(digit_char(n % 10))
    }
}

/// Whether `c` is an ASCII decimal digit.
pub open spec fn is_digit_char(c: char) -> bool {
    48 <= c as int && c as int <= 57
}

/// Numeric value of a digit character.
pub open spec fn digit_of(c: char) -> nat {
    (c as int - 48) as nat
}

/// Whether every character of `s` is a decimal digit.
pub open spec fn all_digits(s: Seq<char>) -> bool {
    forall|i: int| 0 <= i < s.len() ==> is_digit_char(#[trigger] s[i])
}

/// Value of a digit string, read most significant digit first.
pub open spec fn dec_val(s: Seq<char>) -> nat
    decreases s.len(),
{
    if s.len() == 0 {
        0
    } else {
        dec_val(s.drop_last()) * 10 + digit_of(s.last())
    }
}

/// Every character that `dec_seq` produces is a digit.
pub proof fn lemma_dec_seq_digits(n: nat)
    ensures
        all_digits(dec_seq(n)),
        dec_seq(n).len() >= 1,
    decreases n,
{
    if n >= 10 {
        lemma_dec_seq_digits(n / 10);
    }
}

/// A digit character carries the digit it was made from.
pub proof fn lemma_digit_roundtrip(d: nat)
    requires
        d < 10,
    ensures
        digit_of(digit_char(d)) == d,
        is_digit_char(digit_char(d)),
{
}

/// Reading back the digit sequence of `n` yields `n`.
pub proof fn lemma_dec_seq_val(n: nat)
    ensures
        dec_val(dec_seq(n)) == n,
    decreases n,
{
    if n < 10 {
        lemma_digit_roundtrip(n);
        assert(dec_seq(n) =~= seq![digit_char(n)]);
        assert(dec_val(Seq::<char>::empty()) == 0);
        assert(seq![digit_char(n)].drop_last() =~= Seq::<char>::empty());
        assert(dec_val(seq![digit_char(n)]) == digit_of(digit_char(n)));
    } else {
        lemma_dec_seq_val(n / 10);
        lemma_digit_roundtrip(n % 10);
        let s = dec_seq(n);
        assert(s =~= dec_seq(n / 10).push(digit_char(n % 10)));
        assert(s.drop_last() =~= dec_seq(n / 10));
        assert(s.last() == digit_char(n % 10));
        assert(s.len() >= 1) by {
            lemma_dec_seq_digits(n);
        }
        assert(dec_val(s) == dec_val(s.drop_last()) * 10 + digit_of(s.last()));
    }
}

fn digit_str(d: u8) -> (r: &'static str)
    requires
        d < 10,
    ensures
        r@ == seq![digit_char(d as nat)],
{
    proof {
        reveal_strlit("0");
        reveal_strlit("1");
        reveal_strlit("2");
        reveal_strlit("3");
        reveal_strlit("4");
        reveal_strlit("5");
        reveal_strlit("6");
        reveal_strlit("7");
        reveal_strlit("8");
        reveal_strlit("9");
        assert("0"@ =~= seq!['0']);
        assert("1"@ =~= seq!['1']);
        assert("2"@ =~= seq!['2']);
        assert("3"@ =~= seq!['3']);
        assert("4"@ =~= seq!['4']);
        assert("5"@ =~= seq!['5']);
        assert("6"@ =~= seq!['6']);
        assert("7"@ =~= seq!['7']);
        assert("8"@ =~= seq!['8']);
        assert("9"@ =~= seq!['9']);
    }
    match d {
        0 => "0",
        1 => "1",
        2 => "2",
        3 => "3",
        4 => "4",
        5 => "5",
        6 => "6",
        7 => "7",
        8 => "8",
        _ => "9",
    }
}

/// Decimal rendering of a `u64`.
pub fn u64_to_dec(n: u64) -> (r: String)
    ensures
        r@ == dec_seq(n as nat),
    decreases n,
{
    if n < 10 {
        String::from_str(digit_str(n as u8))
    } else {
        let mut s = u64_to_dec(n / 10);
        s.append(digit_str((n % 10) as u8));
        proof {
            assert(dec_seq(n as nat / 10) + seq![digit_char(n as nat % 10)] =~= dec_seq(n as nat));
        }
        s
    }
}

/// Decimal rendering of a `usize`.
pub fn usize_to_dec(n: usize) -> (r: String)
    ensures
        r@ == dec_seq(n as nat),
{
    u64_to_dec(n as u64)
}

/// A digit-string prefix never exceeds the value of the whole string.
pub proof fn lemma_dec_val_prefix(s: Seq<char>, j: int)
    requires
        0 <= j <= s.len(),
    ensures
        dec_val(s.subrange(0, j)) <= dec_val(s),
    decreases s.len() - j,
{
    if j == s.len() {
        assert(s.subrange(0, j) =~= s);
    } else {
        assert(s.subrange(0, j + 1).drop_last() =~= s.subrange(0, j));
        assert(s.subrange(0, j + 1).last() == s[j]);
        lemma_dec_val_prefix(s, j + 1);
    }
}

/// Parse an unsigned decimal string.  Succeeds exactly on non-empty
/// all-digit strings whose value fits in a `u64`.
pub fn parse_u64(s: &str) -> (r: Option<u64>)
    ensures
        match r {
            Some(v) => s@.len() > 0 && all_digits(s@) && v == dec_val(s@),
            None => s@.len() == 0 || !all_digits(s@) || dec_val(s@) > u64::MAX,
        },
{
    let n: usize = s.unicode_len();
    if n == 0 {
        return None;
    }
    let mut i: usize = 0;
    let mut acc: u64 = 0;
    while i < n
        invariant
            0 < n == s@.len(),
            0 <= i <= n,
            all_digits(s@.subrange(0, i as int)),
            acc == dec_val(s@.subrange(0, i as int)),
        decreases n - i,
    {
        let c: char = s.get_char(i);
        let v: u32 = c as u32;
        if v < 48 || v > 57 {
            return None;
        }
        let d: u64 = (v - 48) as u64;
        proof {
            assert(s@.subrange(0, i + 1).drop_last() =~= s@.subrange(0, i as int));
            assert(s@.subrange(0, i + 1).last() == s@[i as int]);
        }
        let step = acc.checked_mul(10);
        if step.is_none() {
            proof {
                lemma_dec_val_prefix(s@, i + 1);
            }
            return None;
        }
        let next = step.unwrap().checked_add(d);
        if next.is_none() {
            proof {
                lemma_dec_val_prefix(s@, i + 1);
            }
            return None;
        }
        acc = next.unwrap();
        i = i + 1;
    }
    proof {
        assert(s@.subrange(0, n as int) =~= s@);
    }
    Some(acc)
}

/// The `n`-th power of ten.
pub open spec fn pow10(n: nat) -> nat
    decreases n,
{
    if n == 0 {
        1
    } else {
        10 * pow10((n - 1) as nat)
    }
}

/// Powers of ten are positive.
pub proof fn lemma_pow10_pos(n: nat)
    ensures
        pow10(n) >= 1,
    decreases n,
{
    if n > 0 {
        lemma_pow10_pos((n - 1) as nat);
    }
}

/// Powers of ten grow with the exponent.
pub proof fn lemma_pow10_mono(a: nat, b: nat)
    requires
        a <= b,
    ensures
        pow10(a) <= pow10(b),
    decreases b,
{
    if a < b {
        lemma_pow10_mono(a, (b - 1) as nat);
        lemma_pow10_pos((b - 1) as nat);
    }
}

/// The `e`-th power of ten, or nothing when it does not fit in 64 bits.
pub fn pow10_u64(e: usize) -> (r: Option<u64>)
    ensures
        match r {
            Some(v) => v == pow10(e as nat),
            None => pow10(e as nat) > u64::MAX,
        },
{
    let mut acc: u64 = 1;
    let mut i: usize = 0;
    while i < e
        invariant
            0 <= i <= e,
            acc == pow10(i as nat),
        decreases e - i,
    {
        match acc.checked_mul(10) {
            Some(v) => {
                acc = v;
            },
            None => {
                proof {
                    lemma_pow10_mono(i as nat + 1, e as nat);
                }
                return None;
            },
        }
        i = i + 1;
    }
    Some(acc)
}

/// Whether `s` is a decimal integer string: digits, with an optional
/// leading minus sign.
pub open spec fn is_int_string(s: Seq<char>) -> bool {
    if s.len() >= 1 && s[0] == '-' {
        s.len() >= 2 && all_digits(s.skip(1))
    } else {
        s.len() >= 1 && all_digits(s)
    }
}

/// Value of a decimal integer string.
pub open spec fn int_val(s: Seq<char>) -> int {
    if s.len() >= 1 && s[0] == '-' {
        -(dec_val(s.skip(1)) as int)
    } else {
        dec_val(s) as int
    }
}

/// Parse a signed decimal string.  Succeeds exactly on integer strings
/// whose magnitude is at most `i64::MAX`.
pub fn parse_i64(s: &str) -> (r: Option<i64>)
    ensures
        match r {
            Some(v) => is_int_string(s@) && v == int_val(s@) && -i64::MAX <= int_val(s@)
                <= i64::MAX,
            None => !is_int_string(s@) || int_val(s@) < -i64::MAX || int_val(s@) > i64::MAX,
        },
{
    let n: usize = s.unicode_len();
    if n >= 1 && s.get_char(0) as u32 == 45 {
        let rest = s.substring_char(1, n);
        proof {
            assert(rest@ =~= s@.skip(1));
            assert(s@[0] == '-') by {
                assert(s@[0] as u32 == 45);
                assert('-' as u32 == 45);
            }
        }
        match parse_u64(rest) {
            Some(m) => {
                if m <= i64::MAX as u64 {
                    Some(-(m as i64))
                } else {
                    None
                }
            },
            None => None,
        }
    } else {
        match parse_u64(s) {
            Some(m) => {
                if m <= i64::MAX as u64 {
                    Some(m as i64)
                } else {
                    None
                }
            },
            None => None,
        }
    }
}

} // verus!
