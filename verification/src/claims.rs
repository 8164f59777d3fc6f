//! The claim set: absolute timestamps derived from decimal offsets.
use vstd::prelude::*;
use vstd::arithmetic::div_mod::lemma_fundamental_div_mod;
use crate::duration::digit_val;
use crate::duration::is_digit;
use crate::duration::num_of;
use crate::duration::exec_is_digit;
use crate::duration::lemma_num_of_prefix;
use crate::errors::JwtError;
use crate::render::dec_str;
use crate::render::digit_char_of;

verus! {

/// The payload of a token: an expiration timestamp, optional identity
/// fields, and optional issued-at and not-before timestamps, all in seconds
/// since the Unix epoch.
#[derive(Debug)]
pub struct Claims {
    pub exp: usize,
    pub sub: Option<String>,
    pub aud: Option<String>,
    pub iss: Option<String>,
    pub iat: Option<usize>,
    pub nbf: Option<usize>,
}

/// The value of a string of decimal digits, where it is non-empty and fits
/// in `u64`.
pub open spec fn dec_value(s: Seq<char>) -> Option<u64> {
    if s.len() > 0 && (forall|i: int| 0 <= i < s.len() ==> is_digit(#[trigger] s[i])) && num_of(s)
        <= u64::MAX {
        Some(num_of(s) as u64)
    } else {
        None
    }
}

/// Reads a decimal seconds count, as the offset fields of the sign options
/// hold it.
pub fn parse_seconds(s: &str) -> (r: Option<u64>)
    ensures
        r == dec_value(s@),
{
    let n = s.unicode_len();
    if n == 0 {
        return None;
    }
    let mut acc: u64 = 0;
    let mut i: usize = 0;
    while i < n
        invariant
            n == s@.len(),
            i <= n,
            forall|k: int| 0 <= k < i ==> is_digit(#[trigger] s@[k]),
            acc == num_of(s@.take(i as int)),
        decreases n - i,
    {
        let c = s.get_char(i);
        if !exec_is_digit(c) {
            return None;
        }
        let d = (c as u32 - 48) as u64;
        proof {
            assert(s@.take(i + 1).drop_last() =~= s@.take(i as int));
            assert(s@.take(i + 1).last() == s@[i as int]);
        }
        let step = match acc.checked_mul(10) {
            Some(t) => t.checked_add(d),
            None => None,
        };
        match step {
            Some(v) => {
                acc = v;
            },
            None => {
                proof {
                    if forall|k: int| 0 <= k < s@.len() ==> is_digit(#[trigger] s@[k]) {
                        lemma_num_of_prefix(s@, i + 1);
                    }
                }
                return None;
            },
        }
        i = i + 1;
    }
    proof {
        assert(s@.take(n as int) =~= s@);
    }
    Some(acc)
}

proof fn lemma_dec_str_reads_back(n: int)
    requires
        0 <= n,
    ensures
        dec_str(n).len() > 0,
        forall|i: int| 0 <= i < dec_str(n).len() ==> is_digit(#[trigger] dec_str(n)[i]),
        num_of(dec_str(n)) == n,
    decreases n,
{
    if n < 10 {
        let d = digit_char_of(n);
        assert(is_digit(d));
        assert(seq![d].len() == 1);
        assert(seq![d].last() == d);
        assert(seq![d].drop_last() =~= Seq::<char>::empty());
        assert(num_of(Seq::<char>::empty()) == 0);
        assert(num_of(seq![d]) == num_of(seq![d].drop_last()) * 10 + digit_val(seq![d].last()));
    } else {
        assert(n / 10 < n && n / 10 >= 1) by (nonlinear_arith)
            requires n >= 10;
        lemma_dec_str_reads_back(n / 10);
        let a = dec_str(n / 10);
        let d = digit_char_of(n % 10);
        assert((a + seq![d]).drop_last() =~= a);
        assert((a + seq![d]).last() == d);
        lemma_fundamental_div_mod(n, 10);
        assert(is_digit(d));
        assert forall|i: int| 0 <= i < (a + seq![d]).len() implies is_digit(
            #[trigger] (a + seq![d])[i],
        ) by {
            if i < a.len() {
                assert((a + seq![d])[i] == a[i]);
            }
        }
    }
}

/// Rendering a seconds count in decimal and reading it back yields the
/// same count: the resolved offset a sign command carries is parsed again
/// unchanged when the claim set is built.
pub proof fn lemma_dec_roundtrip(v: u64)
    ensures
        dec_value(dec_str(v as int)) == Some(v),
{
    lemma_dec_str_reads_back(v as int);
}

/// The current time plus an offset, failing explicitly where the sum does
/// not fit the platform's pointer-sized integer.
pub fn calculate_time(current_time: u64, diff: u64) -> (r: Result<usize, JwtError>)
    ensures
        current_time + diff <= usize::MAX ==> (r matches Ok(v) && v == current_time + diff),
        current_time + diff > usize::MAX ==> (r matches Err(e) && e == JwtError::TimestampRange),
{
    match current_time.checked_add(diff) {
        None => Err(JwtError::TimestampRange),
        Some(t) => {
            if t <= usize::MAX as u64 {
                Ok(t as usize)
            } else {
                Err(JwtError::TimestampRange)
            }
        },
    }
}

} // verus!
