//! The compact duration language: `<integer><unit>` fragments summed to
//! seconds, with every character outside such a fragment silently skipped.
use vstd::prelude::*;
use vstd::arithmetic::mul::lemma_mul_inequality;
use crate::errors::JwtError;
use crate::render::dec_str;
use crate::render::push_dec;
use crate::render::chars_to_string;

verus! {

/// A decimal digit.
pub open spec fn is_digit(c: char) -> bool {
    48 <= c as int && c as int <= 57
}

/// The numeric value of a digit character.
pub open spec fn digit_val(c: char) -> int {
    c as int - 48
}

/// A duration unit letter: seconds, minutes, hours, days or weeks.
pub open spec fn is_unit(c: char) -> bool {
    c == 's' || c == 'm' || c == 'h' || c == 'd' || c == 'w'
}

/// How many seconds one of `unit` lasts.
pub open spec fn unit_secs(c: char) -> int {
    if c == 's' {
        1
    } else if c == 'm' {
        60
    } else if c == 'h' {
        3600
    } else if c == 'd' {
        86400
    } else {
        604800
    }
}

/// The value of a digit string, most significant digit first.
pub open spec fn num_of(s: Seq<char>) -> int
    decreases s.len(),
{
    if s.len() == 0 {
        0
    } else {
        num_of(s.drop_last()) * 10 + digit_val(s.last())
    }
}

/// The length of the maximal digit prefix of `s`.
pub open spec fn digit_run_len(s: Seq<char>) -> nat
    decreases s.len(),
{
    if s.len() > 0 && is_digit(s[0]) {
        1 + digit_run_len(s.skip(1))
    } else {
        0
    }
}

/// The total seconds the duration language assigns to `s`: the input is
/// scanned left to right; a maximal digit run directly followed by a unit
/// letter contributes its value times the unit's seconds, and every other
/// character is skipped.
pub open spec fn dur_val(s: Seq<char>) -> int
    decreases s.len(),
    via dur_val_decreases
{
    if s.len() == 0 {
        0
    } else if is_digit(s[0]) {
        let r = digit_run_len(s) as int;
        if r < s.len() && is_unit(s[r]) {
            num_of(s.take(r)) * unit_secs(s[r]) + dur_val(s.skip(r + 1))
        } else {
            dur_val(s.skip(r))
        }
    } else {
        dur_val(s.skip(1))
    }
}

#[via_fn]
proof fn dur_val_decreases(s: Seq<char>) {
    if s.len() > 0 && is_digit(s[0]) {
        lemma_digit_run(s);
        assert(digit_run_len(s) == 1 + digit_run_len(s.skip(1)));
    }
}

proof fn lemma_digit_run(s: Seq<char>)
    ensures
        digit_run_len(s) <= s.len(),
        forall|i: int| 0 <= i < digit_run_len(s) ==> is_digit(#[trigger] s[i]),
        digit_run_len(s) == s.len() || !is_digit(s[digit_run_len(s) as int]),
    decreases s.len(),
{
    if s.len() > 0 && is_digit(s[0]) {
        lemma_digit_run(s.skip(1));
        assert forall|i: int| 0 <= i < digit_run_len(s) implies is_digit(#[trigger] s[i]) by {
            if i > 0 {
                assert(s.skip(1)[i - 1] == s[i]);
            }
        }
        if digit_run_len(s) < s.len() {
            assert(s.skip(1)[digit_run_len(s.skip(1)) as int] == s[digit_run_len(s) as int]);
        }
    }
}

proof fn lemma_digit_run_is(s: Seq<char>, k: int)
    requires
        0 <= k <= s.len(),
        forall|i: int| 0 <= i < k ==> is_digit(#[trigger] s[i]),
        k == s.len() || !is_digit(s[k]),
    ensures
        digit_run_len(s) == k,
    decreases s.len(),
{
    if k == 0 {
    } else {
        assert(is_digit(s[0]));
        assert forall|i: int| 0 <= i < k - 1 implies is_digit(#[trigger] s.skip(1)[i]) by {
            assert(s.skip(1)[i] == s[i + 1]);
        }
        if k < s.len() {
            assert(s.skip(1)[k - 1] == s[k]);
        }
        lemma_digit_run_is(s.skip(1), k - 1);
    }
}

proof fn lemma_num_of_nonneg(s: Seq<char>)
    requires
        forall|i: int| 0 <= i < s.len() ==> is_digit(#[trigger] s[i]),
    ensures
        num_of(s) >= 0,
    decreases s.len(),
{
    if s.len() > 0 {
        lemma_num_of_nonneg(s.drop_last());
    }
}

pub(crate) proof fn lemma_num_of_prefix(s: Seq<char>, p: int)
    requires
        forall|i: int| 0 <= i < s.len() ==> is_digit(#[trigger] s[i]),
        0 <= p <= s.len(),
    ensures
        num_of(s.take(p)) <= num_of(s),
    decreases s.len() - p,
{
    if p < s.len() {
        lemma_num_of_prefix(s, p + 1);
        assert(s.take(p + 1).drop_last() =~= s.take(p));
        assert(s.take(p + 1).last() == s[p]);
        lemma_num_of_nonneg(s.take(p));
    } else {
        assert(s.take(p) =~= s);
    }
}

proof fn lemma_dur_val_nonneg(s: Seq<char>)
    ensures
        dur_val(s) >= 0,
    decreases s.len(),
{
    if s.len() == 0 {
    } else if is_digit(s[0]) {
        lemma_digit_run(s);
        let r = digit_run_len(s) as int;
        if r < s.len() && is_unit(s[r]) {
            lemma_dur_val_nonneg(s.skip(r + 1));
            lemma_num_of_nonneg(s.take(r));
            lemma_mul_inequality(0, num_of(s.take(r)), unit_secs(s[r]));
        } else {
            lemma_dur_val_nonneg(s.skip(r));
        }
    } else {
        lemma_dur_val_nonneg(s.skip(1));
    }
}

pub(crate) fn exec_is_digit(c: char) -> (b: bool)
    ensures
        b == is_digit(c),
{
    let x = c as u32;
    48 <= x && x <= 57
}

fn exec_is_unit(c: char) -> (b: bool)
    ensures
        b == is_unit(c),
{
    c == 's' || c == 'm' || c == 'h' || c == 'd' || c == 'w'
}

fn exec_unit_secs(c: char) -> (u: u64)
    requires
        is_unit(c),
    ensures
        u == unit_secs(c),
{
    if c == 's' {
        1
    } else if c == 'm' {
        60
    } else if c == 'h' {
        3600
    } else if c == 'd' {
        86400
    } else {
        604800
    }
}

/// A string made of digits only.
pub open spec fn digit_seq(s: Seq<char>) -> bool {
    forall|i: int| 0 <= i < s.len() ==> is_digit(#[trigger] s[i])
}

/// A string with no digit in it.
pub open spec fn digit_free(s: Seq<char>) -> bool {
    forall|i: int| 0 <= i < s.len() ==> !is_digit(#[trigger] s[i])
}

/// The fragments laid out as text: a separator before each fragment's
/// digits and unit letter, and one closing separator.
pub open spec fn fragments_render(pairs: Seq<(Seq<char>, char)>, seps: Seq<Seq<char>>) -> Seq<char>
    recommends
        seps.len() == pairs.len() + 1,
    decreases pairs.len(),
{
    if pairs.len() == 0 {
        seps[0]
    } else {
        seps[0] + pairs[0].0 + seq![pairs[0].1] + fragments_render(pairs.skip(1), seps.skip(1))
    }
}

/// The seconds the fragments stand for: each fragment's value times its
/// unit's seconds, summed.
pub open spec fn fragments_sum(pairs: Seq<(Seq<char>, char)>) -> int
    decreases pairs.len(),
{
    if pairs.len() == 0 {
        0
    } else {
        num_of(pairs[0].0) * unit_secs(pairs[0].1) + fragments_sum(pairs.skip(1))
    }
}

proof fn lemma_dur_val_digit_free_prefix(p: Seq<char>, t: Seq<char>)
    requires
        digit_free(p),
    ensures
        dur_val(p + t) == dur_val(t),
    decreases p.len(),
{
    if p.len() == 0 {
        assert(p + t =~= t);
    } else {
        assert((p + t)[0] == p[0]);
        assert((p + t).skip(1) =~= p.skip(1) + t);
        assert forall|i: int| 0 <= i < p.skip(1).len() implies !is_digit(
            #[trigger] p.skip(1)[i],
        ) by {
            assert(p.skip(1)[i] == p[i + 1]);
        }
        lemma_dur_val_digit_free_prefix(p.skip(1), t);
    }
}

proof fn lemma_dur_val_fragment(d: Seq<char>, u: char, t: Seq<char>)
    requires
        d.len() > 0,
        digit_seq(d),
        is_unit(u),
    ensures
        dur_val(d + seq![u] + t) == num_of(d) * unit_secs(u) + dur_val(t),
{
    let s = d + seq![u] + t;
    assert forall|i: int| 0 <= i < d.len() implies is_digit(#[trigger] s[i]) by {
        assert(s[i] == d[i]);
    }
    assert(s[d.len() as int] == u);
    assert(!is_digit(u));
    lemma_digit_run_is(s, d.len() as int);
    assert(s.take(d.len() as int) =~= d);
    assert(s.skip(d.len() as int + 1) =~= t);
    assert(is_digit(s[0]));
}

/// For every sequence of `<integer><unit>` fragments laid out with
/// arbitrary digit-free separators around them, the duration language
/// resolves the whole text to the sum of each fragment's value times its
/// unit's seconds.
pub proof fn lemma_duration_fragments(pairs: Seq<(Seq<char>, char)>, seps: Seq<Seq<char>>)
    requires
        seps.len() == pairs.len() + 1,
        forall|k: int| 0 <= k < pairs.len() ==> (#[trigger] pairs[k]).0.len() > 0,
        forall|k: int| 0 <= k < pairs.len() ==> digit_seq((#[trigger] pairs[k]).0),
        forall|k: int| 0 <= k < pairs.len() ==> is_unit((#[trigger] pairs[k]).1),
        forall|k: int| 0 <= k < seps.len() ==> digit_free(#[trigger] seps[k]),
    ensures
        dur_val(fragments_render(pairs, seps)) == fragments_sum(pairs),
    decreases pairs.len(),
{
    if pairs.len() == 0 {
        assert(fragments_render(pairs, seps) == seps[0]);
        assert(seps[0] + Seq::<char>::empty() =~= seps[0]);
        lemma_dur_val_digit_free_prefix(seps[0], Seq::<char>::empty());
    } else {
        assert forall|k: int| 0 <= k < pairs.skip(1).len() implies (#[trigger] pairs.skip(
            1,
        )[k]).0.len() > 0 && digit_seq(pairs.skip(1)[k].0) && is_unit(pairs.skip(1)[k].1) by {
            assert(pairs.skip(1)[k] == pairs[k + 1]);
        }
        assert forall|k: int| 0 <= k < seps.skip(1).len() implies digit_free(
            #[trigger] seps.skip(1)[k],
        ) by {
            assert(seps.skip(1)[k] == seps[k + 1]);
        }
        lemma_duration_fragments(pairs.skip(1), seps.skip(1));
        let rest = fragments_render(pairs.skip(1), seps.skip(1));
        let frag = pairs[0].0 + seq![pairs[0].1] + rest;
        lemma_dur_val_digit_free_prefix(seps[0], frag);
        lemma_dur_val_fragment(pairs[0].0, pairs[0].1, rest);
        assert(fragments_render(pairs, seps) =~= seps[0] + frag);
    }
}

/// Resolves a duration description to seconds.
///
/// Every maximal digit run directly followed by a unit letter contributes;
/// everything else is skipped, so an input with no fragment resolves to `0`.
/// The only failure is a total that does not fit the result type.
pub fn parse_duration(s: &str) -> (r: Result<u64, JwtError>)
    ensures
        r matches Ok(v) ==> v == dur_val(s@) && dur_val(s@) <= u64::MAX,
        r matches Err(e) ==> e == JwtError::TimestampRange && dur_val(s@) > u64::MAX,
{
    let n = s.unicode_len();
    let mut i: usize = 0;
    let mut total: u64 = 0;
    proof {
        assert(s@.skip(0) =~= s@);
    }
    while i < n
        invariant
            n == s@.len(),
            i <= n,
            total + dur_val(s@.skip(i as int)) == dur_val(s@),
        decreases n - i,
    {
        let ghost tail = s@.skip(i as int);
        if exec_is_digit(s.get_char(i)) {
            let mut j: usize = i + 1;
            while j < n && exec_is_digit(s.get_char(j))
                invariant
                    n == s@.len(),
                    i < j <= n,
                    forall|k: int| i <= k < j ==> is_digit(#[trigger] s@[k]),
                decreases n - j,
            {
                j = j + 1;
            }
            let ghost run = s@.subrange(i as int, j as int);
            proof {
                assert forall|k: int| 0 <= k < j - i implies is_digit(#[trigger] tail[k]) by {
                    assert(tail[k] == s@[i + k]);
                }
                if j < n {
                    assert(tail[j - i] == s@[j as int]);
                }
                lemma_digit_run_is(tail, j - i);
                assert(tail.take(j - i) =~= run);
                lemma_dur_val_nonneg(tail);
            }
            if j < n && exec_is_unit(s.get_char(j)) {
                proof {
                    assert(tail.skip(j - i + 1) =~= s@.skip(j + 1));
                    assert(dur_val(tail) == num_of(run) * unit_secs(s@[j as int]) + dur_val(
                        s@.skip(j + 1),
                    ));
                    lemma_dur_val_nonneg(s@.skip(j + 1));
                    lemma_num_of_nonneg(run);
                    lemma_mul_inequality(1, unit_secs(s@[j as int]), num_of(run));
                }
                let u = exec_unit_secs(s.get_char(j));
                let mut acc: u64 = 0;
                let mut k: usize = i;
                while k < j
                    invariant
                        n == s@.len(),
                        i <= k <= j <= n,
                        j < n,
                        run == s@.subrange(i as int, j as int),
                        forall|m: int| i <= m < j ==> is_digit(#[trigger] s@[m]),
                        acc == num_of(s@.subrange(i as int, k as int)),
                        num_of(run) >= 0,
                        num_of(run) * unit_secs(s@[j as int]) >= num_of(run),
                        dur_val(s@) >= total + num_of(run) * unit_secs(s@[j as int]),
                    decreases j - k,
                {
                    let d = (s.get_char(k) as u32 - 48) as u64;
                    let ghost pre = s@.subrange(i as int, k as int);
                    proof {
                        assert(s@.subrange(i as int, k + 1).drop_last() =~= pre);
                        assert(s@.subrange(i as int, k + 1).last() == s@[k as int]);
                        assert forall|m: int| 0 <= m < run.len() implies is_digit(
                            #[trigger] run[m],
                        ) by {
                            assert(run[m] == s@[i + m]);
                        }
                        assert(pre =~= run.take(k - i));
                        assert(s@.subrange(i as int, k + 1) =~= run.take(k + 1 - i));
                        lemma_num_of_prefix(run, k + 1 - i);
                    }
                    let step = match acc.checked_mul(10) {
                        Some(t) => t.checked_add(d),
                        None => None,
                    };
                    match step {
                        Some(v) => {
                            acc = v;
                        },
                        None => {
                            return Err(JwtError::TimestampRange);
                        },
                    }
                    k = k + 1;
                }
                let term = match acc.checked_mul(u) {
                    Some(t) => t,
                    None => {
                        return Err(JwtError::TimestampRange);
                    },
                };
                total = match total.checked_add(term) {
                    Some(t) => t,
                    None => {
                        return Err(JwtError::TimestampRange);
                    },
                };
                i = j + 1;
            } else {
                proof {
                    assert(tail.skip(j - i) =~= s@.skip(j as int));
                    assert(dur_val(tail) == dur_val(s@.skip(j as int)));
                }
                i = j;
            }
        } else {
            proof {
                assert(tail[0] == s@[i as int]);
                assert(tail.skip(1) =~= s@.skip(i + 1));
            }
            i = i + 1;
        }
    }
    proof {
        assert(s@.skip(n as int) =~= Seq::<char>::empty());
    }
    Ok(total)
}

/// Resolves a duration description to seconds, rendered in decimal.
pub fn parser_date(time: &str) -> (r: Result<String, JwtError>)
    ensures
        r matches Ok(s) ==> dur_val(time@) <= u64::MAX && s@ == dec_str(dur_val(time@)),
        r matches Err(e) ==> e == JwtError::TimestampRange && dur_val(time@) > u64::MAX,
{
    match parse_duration(time) {
        Ok(v) => {
            let mut buf: Vec<char> = Vec::new();
            push_dec(v, &mut buf);
            Ok(chars_to_string(&buf))
        },
        Err(e) => Err(e),
    }
}

} // verus!
