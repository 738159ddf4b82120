//! Rendering of numbers as digit strings.

use vstd::prelude::*;
use crate::timing::{is_digit, digit_val, all_digits, digits_val};

verus! {

/// The digit character of a value between zero and nine.
pub open spec fn digit_char(d: int) -> char {
    ((48 + d) as u8) as char
}

/// The decimal digits of a non-negative number, without leading zeros
/// (a single zero for zero).
pub open spec fn sp_dec_str(n: int) -> Seq<char>
    decreases n,
{
    if n <= 9 {
        seq![digit_char(n)]
    } else {
        sp_dec_str(n / 10) + seq![digit_char(n % 10)]
    }
}

/// Exactly `w` decimal digits of `n`, leading zeros kept.
pub open spec fn sp_pad_str(n: int, w: int) -> Seq<char>
    decreases w,
{
    if w <= 0 {
        Seq::empty()
    } else {
        sp_pad_str(n / 10, w - 1) + seq![digit_char(n % 10)]
    }
}

/// The string with its trailing zero digits removed.
pub open spec fn sp_trim_zeros(s: Seq<char>) -> Seq<char>
    decreases s.len(),
{
    if s.len() > 0 && s.last() == '0' {
        sp_trim_zeros(s.drop_last())
    } else {
        s
    }
}

/// The decimal rendering of `n` reads back as `n`.
pub proof fn lemma_dec_str_val(n: int)
    requires
        n >= 0,
    ensures
        all_digits(sp_dec_str(n)),
        digits_val(sp_dec_str(n)) == n,
        sp_dec_str(n).len() >= 1,
    decreases n,
{
    if n <= 9 {
        let s = sp_dec_str(n);
        assert(s.drop_last() =~= Seq::<char>::empty());
        assert(digits_val(Seq::<char>::empty()) == 0);
        assert(digits_val(s) == digits_val(s.drop_last()) * 10 + digit_val(s.last()));
        assert(digit_val(digit_char(n)) == n);
        assert(is_digit(digit_char(n)));
    } else {
        lemma_dec_str_val(n / 10);
        let a = sp_dec_str(n / 10);
        let s = sp_dec_str(n);
        assert(s.drop_last() =~= a);
        assert(s.last() == digit_char(n % 10));
        assert(digit_val(digit_char(n % 10)) == n % 10);
        assert(is_digit(digit_char(n % 10)));
        assert(digits_val(s) == digits_val(a) * 10 + (n % 10));
        assert((n / 10) * 10 + n % 10 == n);
        assert forall|k: int| 0 <= k < s.len() implies is_digit(#[trigger] s[k]) by {
            if k < a.len() {
                assert(s[k] == a[k]);
            } else {
                assert(s[k] == digit_char(n % 10));
            }
        }
    }
}

/// Two numbers with the same decimal rendering are the same.
pub proof fn lemma_dec_str_injective(m: int, n: int)
    requires
        m >= 0,
        n >= 0,
        sp_dec_str(m) == sp_dec_str(n),
    ensures
        m == n,
{
    lemma_dec_str_val(m);
    lemma_dec_str_val(n);
}

/// Appends the decimal digits of `n`.
pub fn push_dec(n: u64, out: &mut Vec<char>)
    ensures
        final(out)@ == old(out)@ + sp_dec_str(n as int),
    decreases n,
{
    if n <= 9 {
        let c = ((48 + n) as u8) as char;
        out.push(c);
        proof {
            assert(out@ =~= old(out)@ + sp_dec_str(n as int));
        }
    } else {
        push_dec(n / 10, out);
        let c = ((48 + (n % 10)) as u8) as char;
        out.push(c);
        proof {
            assert(out@ =~= old(out)@ + sp_dec_str(n as int));
        }
    }
}

/// Appends exactly `w` decimal digits of `n`, leading zeros kept.
pub fn push_pad(n: u64, w: usize, out: &mut Vec<char>)
    ensures
        final(out)@ == old(out)@ + sp_pad_str(n as int, w as int),
    decreases w,
{
    if w == 0 {
        proof {
            assert(out@ =~= old(out)@ + sp_pad_str(n as int, 0));
        }
    } else {
        push_pad(n / 10, w - 1, out);
        let c = ((48 + (n % 10)) as u8) as char;
        out.push(c);
        proof {
            assert(out@ =~= old(out)@ + sp_pad_str(n as int, w as int));
        }
    }
}

/// Removes trailing zero digits.
pub fn trim_zeros(out: &mut Vec<char>)
    ensures
        final(out)@ == sp_trim_zeros(old(out)@),
{
    loop
        invariant
            sp_trim_zeros(out@) == sp_trim_zeros(old(out)@),
        decreases out@.len(),
    {
        if out.len() > 0 && out[out.len() - 1] == '0' {
            let ghost before = out@;
            let _ = out.pop();
            proof {
                assert(out@ =~= before.drop_last());
            }
        } else {
            return ;
        }
    }
}

} // verus!
