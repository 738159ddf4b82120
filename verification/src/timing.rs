//! Parsing of timing values.
//!
//! A timing value is a decimal number of seconds, or `minutes:seconds` with
//! both parts decimal. Values are held exactly as microseconds: a decimal
//! number is digits with an optional fractional part, the integer part at
//! most ten digits long, the fraction read to microsecond precision
//! (further digits are truncated). An unparsable minutes part counts as
//! zero; an unparsable seconds part fails.

use vstd::prelude::*;
use crate::markup::copy_range;

verus! {

/// True when the character is a decimal digit.
pub open spec fn is_digit(c: char) -> bool {
    '0' <= c && c <= '9'
}

/// The numeric value of a digit character.
pub open spec fn digit_val(c: char) -> int {
    c as int - 48
}

/// True when every character of `s` is a decimal digit.
pub open spec fn all_digits(s: Seq<char>) -> bool {
    forall|k: int| 0 <= k < s.len() ==> is_digit(#[trigger] s[k])
}

/// The value of a digit string read in base ten.
pub open spec fn digits_val(s: Seq<char>) -> int
    decreases s.len(),
{
    if s.len() == 0 {
        0
    } else {
        digits_val(s.drop_last()) * 10 + digit_val(s.last())
    }
}

/// Ten to the power `n` (one for `n <= 0`).
pub open spec fn pow10(n: int) -> int
    decreases n,
{
    if n <= 0 {
        1
    } else {
        10 * pow10(n - 1)
    }
}

/// A digit string's value is below ten to its length.
pub proof fn lemma_digits_val_bound(s: Seq<char>)
    requires
        all_digits(s),
    ensures
        0 <= digits_val(s) < pow10(s.len() as int),
    decreases s.len(),
{
    if s.len() == 0 {
    } else {
        assert(all_digits(s.drop_last()));
        lemma_digits_val_bound(s.drop_last());
        assert(is_digit(s.last()));
    }
}

/// `pow10` is at least one.
pub proof fn lemma_pow10_pos(n: int)
    ensures
        pow10(n) >= 1,
    decreases n,
{
    if n > 0 {
        lemma_pow10_pos(n - 1);
    }
}

/// `pow10` does not fall as the exponent grows.
pub proof fn lemma_pow10_mono(a: int, b: int)
    requires
        a <= b,
    ensures
        pow10(a) <= pow10(b),
        pow10(a) >= 1,
    decreases b - a,
{
    lemma_pow10_pos(a);
    if a < b {
        lemma_pow10_mono(a, b - 1);
    }
}

/// Index of the first occurrence of `c` at or after `i`, or the length.
pub open spec fn sp_find_from(s: Seq<char>, i: int, c: char) -> int
    decreases s.len() - i,
{
    if 0 <= i < s.len() && s[i] != c {
        sp_find_from(s, i + 1, c)
    } else {
        i
    }
}

/// The microsecond value of the fractional digit string `f`: its first six
/// digits, padded on the right with zeros.
pub open spec fn frac_micros(f: Seq<char>) -> int {
    if f.len() >= 6 {
        digits_val(f.subrange(0, 6))
    } else {
        digits_val(f) * pow10(6 - f.len())
    }
}

/// The microseconds a decimal string stands for: digits with an optional
/// fractional part, at least one digit in all, the integer part at most ten
/// digits.
pub open spec fn sp_parse_dec(s: Seq<char>) -> Option<int> {
    let d = sp_find_from(s, 0, '.');
    if d == s.len() {
        if s.len() > 0 && s.len() <= 10 && all_digits(s) {
            Some(digits_val(s) * 1000000)
        } else {
            None
        }
    } else {
        let ip = s.subrange(0, d);
        let fp = s.subrange(d + 1, s.len() as int);
        if (ip.len() > 0 || fp.len() > 0) && ip.len() <= 10 && all_digits(ip) && all_digits(fp) {
            Some(digits_val(ip) * 1000000 + frac_micros(fp))
        } else {
            None
        }
    }
}

/// A parsed decimal is below ten to the sixteen microseconds.
pub proof fn lemma_dec_bound(s: Seq<char>)
    ensures
        sp_parse_dec(s) matches Some(x) ==> 0 <= x < 10000000000000000,
{
    let d = sp_find_from(s, 0, '.');
    if d == s.len() {
        if s.len() > 0 && s.len() <= 10 && all_digits(s) {
            lemma_digits_val_bound(s);
            lemma_pow10_mono(s.len() as int, 10);
            assert(pow10(10) == 10000000000) by {
                reveal_with_fuel(pow10, 11);
            }
        }
    } else {
        let ip = s.subrange(0, d);
        let fp = s.subrange(d + 1, s.len() as int);
        if (ip.len() > 0 || fp.len() > 0) && ip.len() <= 10 && all_digits(ip) && all_digits(fp) {
            lemma_digits_val_bound(ip);
            lemma_pow10_mono(ip.len() as int, 10);
            assert(pow10(10) == 10000000000) by {
                reveal_with_fuel(pow10, 11);
            }
            lemma_frac_bound(fp);
        }
    }
}

/// The fractional contribution is below one second of microseconds.
pub proof fn lemma_frac_bound(f: Seq<char>)
    requires
        all_digits(f),
    ensures
        0 <= frac_micros(f) < 1000000,
{
    assert(pow10(6) == 1000000) by {
        reveal_with_fuel(pow10, 7);
    }
    if f.len() >= 6 {
        assert(all_digits(f.subrange(0, 6)));
        lemma_digits_val_bound(f.subrange(0, 6));
    } else {
        lemma_digits_val_bound(f);
        lemma_pow10_mono(0, 6 - f.len());
        assert(digits_val(f) * pow10(6 - f.len()) <= (pow10(f.len() as int) - 1) * pow10(
            6 - f.len(),
        )) by (nonlinear_arith)
            requires
                0 <= digits_val(f) <= pow10(f.len() as int) - 1,
                pow10(6 - f.len()) >= 1,
        ;
        assert((pow10(f.len() as int) - 1) * pow10(6 - f.len()) == pow10(f.len() as int) * pow10(
            6 - f.len(),
        ) - pow10(6 - f.len())) by (nonlinear_arith);
        lemma_pow10_add(f.len() as int, 6 - f.len());
        assert(digits_val(f) * pow10(6 - f.len()) >= 0) by (nonlinear_arith)
            requires
                digits_val(f) >= 0,
                pow10(6 - f.len()) >= 1,
        ;
    }
}

/// Ten-powers multiply by adding exponents.
pub proof fn lemma_pow10_add(a: int, b: int)
    requires
        a >= 0,
        b >= 0,
    ensures
        pow10(a) * pow10(b) == pow10(a + b),
    decreases a,
{
    if a <= 0 {
    } else {
        lemma_pow10_add(a - 1, b);
        assert(pow10(a) * pow10(b) == 10 * (pow10(a - 1) * pow10(b))) by (nonlinear_arith)
            requires
                pow10(a) == 10 * pow10(a - 1),
        ;
    }
}

/// The microseconds a timing value stands for: `minutes:seconds` around the
/// first `:`, or a bare seconds value. A minutes part that is not a decimal
/// counts as zero; a seconds part that is not a decimal makes the whole
/// value unparsable.
pub open spec fn sp_parse_time(s: Seq<char>) -> Option<int> {
    let d = sp_find_from(s, 0, ':');
    if d == s.len() {
        sp_parse_dec(s)
    } else {
        let mp = s.subrange(0, d);
        let sec = s.subrange(d + 1, s.len() as int);
        match sp_parse_dec(sec) {
            None => None,
            Some(sv) => {
                let mv = match sp_parse_dec(mp) {
                    Some(m) => m,
                    None => 0,
                };
                Some(mv * 60 + sv)
            },
        }
    }
}

/// A parsed timing value fits comfortably in sixty-four bits.
pub proof fn lemma_time_bound(s: Seq<char>)
    ensures
        sp_parse_time(s) matches Some(x) ==> 0 <= x < 610000000000000000,
{
    let d = sp_find_from(s, 0, ':');
    if d == s.len() {
        lemma_dec_bound(s);
    } else {
        lemma_dec_bound(s.subrange(0, d));
        lemma_dec_bound(s.subrange(d + 1, s.len() as int));
    }
}

/// Advances to the next occurrence of `c`.
pub fn find_char(s: &Vec<char>, i: usize, c: char) -> (r: usize)
    requires
        i <= s@.len(),
    ensures
        r as int == sp_find_from(s@, i as int, c),
        i <= r <= s@.len(),
{
    let mut j: usize = i;
    while j < s.len() && s[j] != c
        invariant
            i <= j <= s@.len(),
            sp_find_from(s@, i as int, c) == sp_find_from(s@, j as int, c),
        decreases s@.len() - j,
    {
        j = j + 1;
    }
    j
}

/// Decides whether the characters of `s` between `a` and `b` are all digits.
fn all_digits_range(s: &Vec<char>, a: usize, b: usize) -> (r: bool)
    requires
        a <= b <= s@.len(),
    ensures
        r == all_digits(s@.subrange(a as int, b as int)),
{
    let mut j: usize = a;
    while j < b
        invariant
            a <= j <= b <= s@.len(),
            forall|k: int| a <= k < j ==> is_digit(#[trigger] s@[k]),
        decreases b - j,
    {
        let c = s[j];
        if !('0' <= c && c <= '9') {
            proof {
                assert(s@.subrange(a as int, b as int)[j - a] == s@[j as int]);
            }
            return false;
        }
        j = j + 1;
    }
    proof {
        assert forall|k: int| 0 <= k < b - a implies is_digit(
            #[trigger] s@.subrange(a as int, b as int)[k],
        ) by {
            assert(s@.subrange(a as int, b as int)[k] == s@[a + k]);
        }
    }
    true
}

/// The base-ten value of the digits of `s` between `a` and `b`.
fn digits_value(s: &Vec<char>, a: usize, b: usize) -> (r: u64)
    requires
        a <= b <= s@.len(),
        b - a <= 10,
        all_digits(s@.subrange(a as int, b as int)),
    ensures
        r as int == digits_val(s@.subrange(a as int, b as int)),
{
    let mut val: u64 = 0;
    let mut j: usize = a;
    while j < b
        invariant
            a <= j <= b <= s@.len(),
            b - a <= 10,
            all_digits(s@.subrange(a as int, b as int)),
            val as int == digits_val(s@.subrange(a as int, j as int)),
        decreases b - j,
    {
        proof {
            assert(s@.subrange(a as int, j as int) =~= s@.subrange(a as int, b as int).subrange(
                0,
                j - a,
            ));
            assert(all_digits(s@.subrange(a as int, j as int)));
            lemma_digits_val_bound(s@.subrange(a as int, j as int));
            lemma_pow10_mono(j - a, 9);
            assert(pow10(9) == 1000000000) by {
                reveal_with_fuel(pow10, 10);
            }
            assert(s@.subrange(a as int, b as int)[j - a] == s@[j as int]);
        }
        let c = s[j];
        let d = (c as u32) - 48;
        val = val * 10 + (d as u64);
        j = j + 1;
        proof {
            assert(s@.subrange(a as int, j as int).drop_last() =~= s@.subrange(
                a as int,
                j - 1,
            ));
            assert(s@.subrange(a as int, j as int).last() == s@[j - 1]);
        }
    }
    proof {
        assert(s@.subrange(a as int, j as int) =~= s@.subrange(a as int, b as int));
    }
    val
}

/// Ten to a small power, as a machine word.
fn pow10_small(e: usize) -> (r: u64)
    requires
        e <= 6,
    ensures
        r as int == pow10(e as int),
{
    proof {
        reveal_with_fuel(pow10, 8);
    }
    if e == 0 {
        1
    } else if e == 1 {
        10
    } else if e == 2 {
        100
    } else if e == 3 {
        1000
    } else if e == 4 {
        10000
    } else if e == 5 {
        100000
    } else {
        1000000
    }
}

/// Parses a decimal string into microseconds; mirrors `sp_parse_dec`.
pub fn parse_dec(v: &Vec<char>) -> (r: Option<u64>)
    ensures
        (match r {
            Some(x) => Some(x as int),
            None => None::<int>,
        }) == sp_parse_dec(v@),
{
    proof {
        lemma_dec_bound(v@);
        assert(pow10(10) == 10000000000) by {
            reveal_with_fuel(pow10, 11);
        }
    }
    let n = v.len();
    let d = find_char(v, 0, '.');
    if d == n {
        if n > 0 && n <= 10 {
            if all_digits_range(v, 0, n) {
                proof {
                    assert(v@.subrange(0, n as int) =~= v@);
                    lemma_digits_val_bound(v@);
                    lemma_pow10_mono(v@.len() as int, 10);
                }
                let x = digits_value(v, 0, n);
                Some(x * 1000000)
            } else {
                proof {
                    assert(v@.subrange(0, n as int) =~= v@);
                }
                None
            }
        } else {
            None
        }
    } else {
        let fplen = n - d - 1;
        if (d > 0 || fplen > 0) && d <= 10 {
            if all_digits_range(v, 0, d) && all_digits_range(v, d + 1, n) {
                proof {
                    lemma_digits_val_bound(v@.subrange(0, d as int));
                    lemma_pow10_mono(d as int, 10);
                    lemma_frac_bound(v@.subrange(d + 1, n as int));
                }
                let ip = digits_value(v, 0, d);
                let f: u64 = if fplen >= 6 {
                    proof {
                        assert(v@.subrange(d + 1, d + 7) =~= v@.subrange(d + 1, n as int).subrange(
                            0,
                            6,
                        ));
                    }
                    digits_value(v, d + 1, d + 7)
                } else {
                    let x = digits_value(v, d + 1, n);
                    proof {
                        lemma_digits_val_bound(v@.subrange(d + 1, n as int));
                        lemma_pow10_mono(fplen as int, 6);
                        lemma_pow10_pos(6 - fplen as int);
                        assert(pow10(6) == 1000000) by {
                            reveal_with_fuel(pow10, 7);
                        }
                        lemma_pow10_add(fplen as int, 6 - fplen);
                        assert(x as int * pow10(6 - fplen) <= (pow10(fplen as int) - 1) * pow10(
                            6 - fplen,
                        )) by (nonlinear_arith)
                            requires
                                0 <= x as int <= pow10(fplen as int) - 1,
                                pow10(6 - fplen) >= 1,
                        ;
                        assert((pow10(fplen as int) - 1) * pow10(6 - fplen) == pow10(
                            fplen as int,
                        ) * pow10(6 - fplen) - pow10(6 - fplen)) by (nonlinear_arith);
                        assert(x as int * pow10(6 - fplen) >= 0) by (nonlinear_arith)
                            requires
                                x as int >= 0,
                                pow10(6 - fplen) >= 1,
                        ;
                    }
                    x * pow10_small(6 - fplen)
                };
                Some(ip * 1000000 + f)
            } else {
                None
            }
        } else {
            None
        }
    }
}

/// Parses a timing value into microseconds; mirrors `sp_parse_time`.
pub fn parse_time(v: &Vec<char>) -> (r: Option<u64>)
    ensures
        (match r {
            Some(x) => Some(x as int),
            None => None::<int>,
        }) == sp_parse_time(v@),
{
    proof {
        lemma_time_bound(v@);
    }
    let n = v.len();
    let d = find_char(v, 0, ':');
    if d == n {
        parse_dec(v)
    } else {
        let sec = copy_range(v, d + 1, n);
        match parse_dec(&sec) {
            None => None,
            Some(sv) => {
                let minutes = copy_range(v, 0, d);
                let mv: u64 = match parse_dec(&minutes) {
                    Some(m) => m,
                    None => 0,
                };
                proof {
                    lemma_dec_bound(v@.subrange(0, d as int));
                    lemma_dec_bound(v@.subrange(d + 1, n as int));
                }
                Some(mv * 60 + sv)
            },
        }
    }
}

} // verus!
