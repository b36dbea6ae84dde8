//! The keep policy: how it is written, and which trashed items it expires.
use vstd::prelude::*;
use crate::text::{chars_of, lowercase, lower_of, same_chars, trim_text, trimmed};

verus! {

/// Seconds in one day.
pub const SECONDS_PER_DAY: i64 = 86400;

/// Days that the asking policy keeps an item before it offers to purge it.
pub const ASK_WINDOW_DAYS: i64 = 30;

/// How long trashed items are kept before they are purged.
#[derive(Clone, Copy, Debug, PartialEq, Eq, Structural)]
pub enum KeepPolicy {
    /// No grace period: everything older than now is purged.
    Never,
    /// Items are kept for this many days.
    Days(i64),
    /// Items older than the asking window are purged once the user agrees.
    AskBeforeDelete,
}

/// Why a policy text was refused.
#[derive(Clone, Copy, Debug, PartialEq, Eq, Structural)]
pub enum PolicyError {
    /// The text ends in `d` but what precedes it is no positive decimal
    /// integer that fits an `i64`.
    InvalidDayCount,
    /// The text is none of `never`, `ask` or `<days>d`.
    Unrecognized,
}

pub open spec fn is_digit(c: char) -> bool {
    '0' <= c && c <= '9'
}

pub open spec fn all_digits(s: Seq<char>) -> bool {
    s.len() > 0 && forall|i: int| 0 <= i < s.len() ==> is_digit(#[trigger] s[i])
}

/// The decimal value of a string of digits.
pub open spec fn digits_value(s: Seq<char>) -> int
    decreases s.len(),
{
    if s.len() == 0 {
        0
    } else {
        digits_value(s.drop_last()) * 10 + (s.last() as int - '0' as int)
    }
}

/// The positive day count that a string of digits denotes, when it fits an `i64`.
pub open spec fn day_count(s: Seq<char>) -> Option<i64> {
    if all_digits(s) && 0 < digits_value(s) && digits_value(s) <= i64::MAX {
        Some(digits_value(s) as i64)
    } else {
        None
    }
}

/// The policy that a trimmed, lowercased policy text denotes.
pub open spec fn policy_of(p: Seq<char>) -> Result<KeepPolicy, PolicyError> {
    if p == seq!['n', 'e', 'v', 'e', 'r'] {
        Ok(KeepPolicy::Never)
    } else if p == seq!['a', 's', 'k'] {
        Ok(KeepPolicy::AskBeforeDelete)
    } else if p.len() > 0 && p.last() == 'd' {
        match day_count(p.drop_last()) {
            Some(n) => Ok(KeepPolicy::Days(n)),
            None => Err(PolicyError::InvalidDayCount),
        }
    } else {
        Err(PolicyError::Unrecognized)
    }
}

proof fn lemma_digits_value_nonneg(s: Seq<char>)
    requires
        forall|i: int| 0 <= i < s.len() ==> is_digit(#[trigger] s[i]),
    ensures
        digits_value(s) >= 0,
    decreases s.len(),
{
    if s.len() > 0 {
        lemma_digits_value_nonneg(s.drop_last());
    }
}

proof fn lemma_digits_value_grows(s: Seq<char>, k: int)
    requires
        0 <= k <= s.len(),
        forall|i: int| 0 <= i < s.len() ==> is_digit(#[trigger] s[i]),
    ensures
        digits_value(s.take(k)) <= digits_value(s),
    decreases s.len() - k,
{
    if k < s.len() {
        lemma_digits_value_grows(s, k + 1);
        assert(s.take(k + 1).drop_last() =~= s.take(k));
        lemma_digits_value_nonneg(s.take(k));
    } else {
        assert(s.take(k) =~= s);
    }
}

/// Reads the unsigned digits of `s` from position `start`: their value when
/// all of them are digits (at least one) and the value is at most 2^63.
fn read_digits(s: &Vec<char>, start: usize) -> (r: Option<i128>)
    requires
        start <= s@.len(),
    ensures
        match r {
            Some(v) => all_digits(s@.skip(start as int)) && v == digits_value(s@.skip(start as int))
                && 0 <= v <= 0x8000_0000_0000_0000,
            None => !all_digits(s@.skip(start as int))
                || digits_value(s@.skip(start as int)) > 0x8000_0000_0000_0000,
        },
{
    let ghost t = s@.skip(start as int);
    if start >= s.len() {
        return None;
    }
    let mut acc: i128 = 0;
    let mut i: usize = start;
    while i < s.len()
        invariant
            start <= i <= s@.len(),
            t == s@.skip(start as int),
            forall|k: int| 0 <= k < i - start ==> is_digit(#[trigger] t[k]),
            acc == digits_value(t.take(i - start)),
            0 <= acc <= 0x8000_0000_0000_0000,
        decreases s@.len() - i,
    {
        let c = s[i];
        if !('0' <= c && c <= '9') {
            assert(!is_digit(t[i - start]));
            return None;
        }
        let ghost j = i - start;
        assert(t.take(j + 1).drop_last() =~= t.take(j));
        acc = acc * 10 + (c as u32 - '0' as u32) as i128;
        i = i + 1;
        if acc > 0x8000_0000_0000_0000 {
            proof {
                if all_digits(t) {
                    lemma_digits_value_grows(t, i - start);
                }
            }
            return None;
        }
    }
    assert(t.take(t.len() as int) =~= t);
    Some(acc)
}

/// The policy that an already trimmed and lowercased text denotes:
/// `never`, `ask`, or a positive decimal count of days followed by one `d`.
pub fn policy_from_normalized(p: &str) -> (r: Result<KeepPolicy, PolicyError>)
    ensures
        r == policy_of(p@),
{
    let v = chars_of(p);
    let never = vec!['n', 'e', 'v', 'e', 'r'];
    let ask = vec!['a', 's', 'k'];
    assert(never@ =~= seq!['n', 'e', 'v', 'e', 'r']);
    assert(ask@ =~= seq!['a', 's', 'k']);
    if same_chars(&v, &never) {
        return Ok(KeepPolicy::Never);
    }
    if same_chars(&v, &ask) {
        return Ok(KeepPolicy::AskBeforeDelete);
    }
    if v.len() == 0 || v[v.len() - 1] != 'd' {
        return Err(PolicyError::Unrecognized);
    }
    let n: usize = v.len() - 1;
    let mut digits: Vec<char> = Vec::new();
    let mut i: usize = 0;
    while i < n
        invariant
            n == v@.len() - 1,
            i <= n,
            digits@ == v@.take(i as int),
        decreases n - i,
    {
        digits.push(v[i]);
        i = i + 1;
        assert(digits@ =~= v@.take(i as int));
    }
    assert(digits@ =~= v@.drop_last());
    assert(digits@.skip(0) =~= digits@);
    match read_digits(&digits, 0) {
        Some(m) => {
            if 0 < m && m <= 0x7fff_ffff_ffff_ffff {
                Ok(KeepPolicy::Days(m as i64))
            } else {
                Err(PolicyError::InvalidDayCount)
            }
        },
        None => Err(PolicyError::InvalidDayCount),
    }
}

/// Reads a policy text as a user writes it: surrounding white space and
/// letter case do not matter.
pub fn parse_keep_policy(text: &str) -> (r: Result<KeepPolicy, PolicyError>)
    ensures
        r == policy_of(lower_of(trimmed(text@))),
{
    let t = trim_text(text);
    let l = lowercase(t.as_str());
    policy_from_normalized(l.as_str())
}

/// Days that items are kept when no policy was chosen.
pub const DEFAULT_KEEP_DAYS: i64 = 30;

/// The policy in force before any is chosen: items are kept for thirty days.
pub fn default_keep_policy() -> (r: KeepPolicy)
    ensures
        r == KeepPolicy::Days(30),
{
    KeepPolicy::Days(DEFAULT_KEEP_DAYS)
}

} // verus!
