//! Numbers written as decimal text and read back from it.
use crate::strings::push_char;
use vstd::prelude::*;

verus! {

/// The ASCII digit for `d`.
pub open spec fn digit_char(d: nat) -> char {
    ((48 + d) as u8) as char
}

/// Whether `c` is an ASCII digit.
pub open spec fn is_digit(c: char) -> bool {
    '0' <= c && c <= '9'
}

/// The value of an ASCII digit.
pub open spec fn digit_value(c: char) -> nat {
    ((c as u32) - 48) as nat
}

/// `n` written in decimal, without leading zeros.
pub open spec fn decimal(n: nat) -> Seq<char>
    decreases n,
{
    if n < 10 {
        seq![digit_char(n)]
    } else {
        decimal(n / 10).push(digit_char(n % 10))
    }
}

/// `n` written in decimal, with a leading `-` when negative.
pub open spec fn signed_decimal(n: int) -> Seq<char> {
    if n < 0 {
        seq!['-'] + decimal((-n) as nat)
    } else {
        decimal(n as nat)
    }
}

/// `n` written with at least two digits, as `{:02}` does.
pub open spec fn two_digits(n: nat) -> Seq<char> {
    if n < 10 {
        seq!['0', digit_char(n)]
    } else {
        decimal(n)
    }
}

/// The number a run of digits spells.
pub open spec fn digits_value(s: Seq<char>) -> nat
    decreases s.len(),
{
    if s.len() == 0 {
        0
    } else {
        digits_value(s.drop_last()) * 10 + digit_value(s.last())
    }
}

/// Whether every character of `s` is an ASCII digit.
pub open spec fn all_digits(s: Seq<char>) -> bool {
    forall|i: int| 0 <= i < s.len() ==> is_digit(#[trigger] s[i])
}

/// What `str::parse::<u64>` accepts: an optional `+`, then one or more digits,
/// spelling a value that fits.
pub open spec fn parsed_u64(s: Seq<char>) -> Option<u64> {
    let body = if s.len() > 0 && s[0] == '+' { s.drop_first() } else { s };
    if body.len() > 0 && all_digits(body) && digits_value(body) <= u64::MAX {
        Some(digits_value(body) as u64)
    } else {
        None
    }
}

/// What `str::parse::<i32>` accepts: an optional sign, then one or more
/// digits, spelling a value in range.
pub open spec fn parsed_i32(s: Seq<char>) -> Option<i32> {
    let negative = s.len() > 0 && s[0] == '-';
    let body = if s.len() > 0 && (s[0] == '+' || s[0] == '-') { s.drop_first() } else { s };
    if body.len() == 0 || !all_digits(body) {
        None
    } else {
        let v: int = if negative { -(digits_value(body) as int) } else { digits_value(body) as int };
        if i32::MIN <= v <= i32::MAX {
            Some(v as i32)
        } else {
            None
        }
    }
}

fn digit_to_char(d: u64) -> (c: char)
    requires
        d < 10,
    ensures
        c == digit_char(d as nat),
{
    let b: u8 = 48u8 + (d as u8);
    b as char
}

/// Appends `n` in decimal.
pub fn push_decimal(out: &mut String, n: u64)
    ensures
        final(out)@ == old(out)@ + decimal(n as nat),
    decreases n,
{
    if n >= 10 {
        push_decimal(out, n / 10);
    }
    push_char(out, digit_to_char(n % 10));
    proof {
        if n >= 10 {
            assert(decimal(n as nat) == decimal((n / 10) as nat).push(digit_char((n % 10) as nat)));
        }
    }
}

/// Appends `n` in decimal, signed.
pub fn push_signed_decimal(out: &mut String, n: i64)
    ensures
        final(out)@ == old(out)@ + signed_decimal(n as int),
{
    if n < 0 {
        push_char(out, '-');
        let magnitude: u64 = if n == i64::MIN {
            9223372036854775808u64
        } else {
            (-n) as u64
        };
        push_decimal(out, magnitude);
    } else {
        push_decimal(out, n as u64);
    }
}

/// Appends `n` with at least two digits.
pub fn push_two_digits(out: &mut String, n: u64)
    ensures
        final(out)@ == old(out)@ + two_digits(n as nat),
{
    if n < 10 {
        push_char(out, '0');
        push_char(out, digit_to_char(n));
    } else {
        push_decimal(out, n);
    }
}

/// `n` in decimal, as a new string.
pub fn decimal_string(n: u64) -> (s: String)
    ensures
        s@ == decimal(n as nat),
{
    let mut s = String::new();
    push_decimal(&mut s, n);
    s
}

proof fn lemma_digits_value_step(s: Seq<char>, i: int)
    requires
        0 <= i < s.len(),
    ensures
        digits_value(s.subrange(0, i + 1)) == digits_value(s.subrange(0, i)) * 10 + digit_value(
            s[i],
        ),
{
    assert(s.subrange(0, i + 1).drop_last() =~= s.subrange(0, i));
}

/// Reads a run of digits as an unsigned value, `None` when it is empty, holds
/// anything but digits, or does not fit.
fn digits_to_u64(s: &[char], start: usize) -> (r: Option<u64>)
    requires
        start <= s@.len(),
    ensures
        ({
            let body = s@.subrange(start as int, s@.len() as int);
            r == if body.len() > 0 && all_digits(body) && digits_value(body) <= u64::MAX {
                Some(digits_value(body) as u64)
            } else {
                None::<u64>
            }
        }),
{
    let ghost body = s@.subrange(start as int, s@.len() as int);
    let n = s.len();
    if start == n {
        return None;
    }
    let mut value: u64 = 0;
    let mut overflowed = false;
    let mut i = start;
    while i < n
        invariant
            n == s@.len(),
            start <= i <= n,
            body == s@.subrange(start as int, s@.len() as int),
            forall|j: int| start <= j < i ==> is_digit(#[trigger] s@[j]),
            !overflowed ==> value == digits_value(s@.subrange(start as int, i as int)),
            overflowed ==> digits_value(s@.subrange(start as int, i as int)) > u64::MAX,
        decreases n - i,
    {
        let c = s[i];
        if !('0' <= c && c <= '9') {
            proof {
                assert(body[i - start] == c);
            }
            return None;
        }
        let d = (c as u32 - 48) as u64;
        proof {
            lemma_digits_value_step(s@.subrange(start as int, n as int), (i - start) as int);
            assert(s@.subrange(start as int, n as int).subrange(0, i - start + 1) =~= s@.subrange(start as int, i + 1));
            assert(s@.subrange(start as int, n as int).subrange(0, i - start) =~= s@.subrange(start as int, i as int));
            assert(s@.subrange(start as int, n as int)[i - start] == c);
        }
        if !overflowed {
            if value > (u64::MAX - d) / 10 {
                overflowed = true;
                proof {
                    assert(value * 10 + d > u64::MAX) by (nonlinear_arith)
                        requires value > (u64::MAX - d) / 10, d < 10;
                }
            } else {
                proof {
                    assert(value * 10 + d <= u64::MAX) by (nonlinear_arith)
                        requires value <= (u64::MAX - d) / 10, d < 10;
                }
                value = value * 10 + d;
            }
        } else {
            proof {
                let prev = digits_value(s@.subrange(start as int, i as int));
                assert(prev * 10 + d > u64::MAX) by (nonlinear_arith)
                    requires prev > u64::MAX;
            }
        }
        i = i + 1;
    }
    proof {
        assert(s@.subrange(start as int, i as int) =~= body);
        assert forall|j: int| 0 <= j < body.len() implies is_digit(#[trigger] body[j]) by {
            assert(body[j] == s@[start + j]);
        }
    }
    if overflowed {
        None
    } else {
        Some(value)
    }
}

/// `str::parse::<u64>`.
pub fn parse_u64(s: &[char]) -> (r: Option<u64>)
    ensures
        r == parsed_u64(s@),
{
    if s.len() > 0 && s[0] == '+' {
        proof {
            assert(s@.subrange(1, s@.len() as int) =~= s@.drop_first());
        }
        digits_to_u64(s, 1)
    } else {
        proof {
            assert(s@.subrange(0, s@.len() as int) =~= s@);
        }
        digits_to_u64(s, 0)
    }
}

/// `str::parse::<i32>`.
pub fn parse_i32(s: &[char]) -> (r: Option<i32>)
    ensures
        r == parsed_i32(s@),
{
    let signed = s.len() > 0 && (s[0] == '+' || s[0] == '-');
    let negative = s.len() > 0 && s[0] == '-';
    let start: usize = if signed { 1 } else { 0 };
    proof {
        if signed {
            assert(s@.subrange(1, s@.len() as int) =~= s@.drop_first());
        } else {
            assert(s@.subrange(0, s@.len() as int) =~= s@);
        }
    }
    let ghost body = s@.subrange(start as int, s@.len() as int);
    // Every digit string that fits i32 fits u64, so a u64 overflow is an i32
    // overflow too.
    let n = s.len();
    let mut i = start;
    let mut all = true;
    while i < n
        invariant
            n == s@.len(),
            start <= i <= n,
            all == forall|j: int| start <= j < i ==> is_digit(#[trigger] s@[j]),
        decreases n - i,
    {
        let c = s[i];
        if !('0' <= c && c <= '9') {
            all = false;
        }
        i = i + 1;
    }
    proof {
        assert(all == all_digits(body)) by {
            if all {
                assert forall|j: int| 0 <= j < body.len() implies is_digit(#[trigger] body[j]) by {
                    assert(body[j] == s@[start + j]);
                }
            } else {
                let j = choose|j: int| start <= j < n && !is_digit(#[trigger] s@[j]);
                assert(body[j - start] == s@[j]);
            }
        }
    }
    if start == n || !all {
        return None;
    }
    match digits_to_u64(s, start) {
        None => None,
        Some(v) => {
            if negative {
                if v <= 2147483648u64 {
                    Some((0i64 - (v as i64)) as i32)
                } else {
                    None
                }
            } else {
                if v <= 2147483647u64 {
                    Some(v as i32)
                } else {
                    None
                }
            }
        },
    }
}


proof fn lemma_digit_round_trip(d: nat)
    requires
        d < 10,
    ensures
        is_digit(digit_char(d)),
        digit_value(digit_char(d)) == d,
{
    let b: u8 = (48 + d) as u8;
    assert(b as int == 48 + d);
    assert((b as char) as u32 == b as u32);
}

/// `decimal` writes one or more digits that spell `n` back.
pub proof fn lemma_decimal_reads_back(n: nat)
    ensures
        decimal(n).len() > 0,
        all_digits(decimal(n)),
        digits_value(decimal(n)) == n,
    decreases n,
{
    if n < 10 {
        lemma_digit_round_trip(n);
        assert(decimal(n) =~= seq![digit_char(n)]);
        assert(seq![digit_char(n)].drop_last() =~= Seq::<char>::empty());
        assert(digits_value(Seq::<char>::empty()) == 0);
        assert(digits_value(decimal(n)) == digits_value(Seq::<char>::empty()) * 10 + digit_value(digit_char(n)));
    } else {
        lemma_decimal_reads_back(n / 10);
        lemma_digit_round_trip(n % 10);
        let s = decimal(n);
        assert(s.drop_last() =~= decimal(n / 10));
        assert(s.last() == digit_char(n % 10));
        assert(digits_value(s) == (n / 10) * 10 + n % 10);
        assert forall|i: int| 0 <= i < s.len() implies is_digit(#[trigger] s[i]) by {
            if i < s.len() - 1 {
                assert(s[i] == decimal(n / 10)[i]);
            }
        }
    }
}

/// Reading a number back from what `signed_decimal` wrote gives the number.
pub proof fn lemma_signed_decimal_parses(n: i32)
    ensures
        parsed_i32(signed_decimal(n as int)) == Some(n),
{
    if n < 0 {
        let m = (-(n as int)) as nat;
        lemma_decimal_reads_back(m);
        let s = signed_decimal(n as int);
        assert(s.drop_first() =~= decimal(m));
    } else {
        lemma_decimal_reads_back(n as nat);
        let s = decimal(n as nat);
        assert(is_digit(s[0]));
    }
}

} // verus!
