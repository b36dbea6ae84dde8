//! Which trashed items the keep policy expires, and what to do about them.
use vstd::prelude::*;
use crate::item::TrashItem;
use crate::policy::{KeepPolicy, ASK_WINDOW_DAYS, SECONDS_PER_DAY};
use crate::text::{chars_of, lowercase, lower_of, same_chars, trim_text, trimmed};

verus! {

/// The number of days for which a policy keeps an item.
pub open spec fn retention_days(p: KeepPolicy) -> int {
    match p {
        KeepPolicy::Never => 0,
        KeepPolicy::Days(n) => n as int,
        KeepPolicy::AskBeforeDelete => ASK_WINDOW_DAYS as int,
    }
}

/// An item trashed at `t` is expired at `now`: it is strictly older than the
/// policy's cutoff.
pub open spec fn is_expired(p: KeepPolicy, now: i64, t: i64) -> bool {
    (t as int) < (now as int) - retention_days(p) * (SECONDS_PER_DAY as int)
}

/// `idx` lists, in increasing order, exactly the positions of the expired items.
pub open spec fn expired_positions(p: KeepPolicy, now: i64, items: Seq<TrashItem>, idx: Seq<usize>) -> bool {
    &&& forall|k: int| 0 <= k < idx.len() ==> #[trigger] idx[k] < items.len()
        && is_expired(p, now, items[idx[k] as int].deletion_time)
    &&& forall|k1: int, k2: int| 0 <= k1 < k2 < idx.len() ==> idx[k1] < idx[k2]
    &&& forall|i: int| 0 <= i < items.len() && is_expired(p, now, #[trigger] items[i].deletion_time)
        ==> idx.contains(i as usize)
}

/// What a retention pass is to do.
#[derive(Clone, Debug)]
pub enum CleanupPlan {
    /// No item is expired.
    Nothing,
    /// Purge the items at these positions without asking.
    Purge(Vec<usize>),
    /// Ask once; on agreement purge the items at these positions.
    Confirm(Vec<usize>),
}

/// Whether an item trashed at `t` is expired at `now` under `policy`.
pub fn expired(policy: KeepPolicy, now: i64, t: i64) -> (r: bool)
    ensures
        r == is_expired(policy, now, t),
{
    let days: i128 = match policy {
        KeepPolicy::Never => 0,
        KeepPolicy::Days(n) => n as i128,
        KeepPolicy::AskBeforeDelete => ASK_WINDOW_DAYS as i128,
    };
    let cutoff: i128 = now as i128 - days * (SECONDS_PER_DAY as i128);
    (t as i128) < cutoff
}

/// Decides a retention pass over the items of the store, all seen at `now`.
pub fn plan_cleanup(policy: KeepPolicy, now: i64, items: &Vec<TrashItem>) -> (r: CleanupPlan)
    ensures
        match r {
            CleanupPlan::Nothing => forall|i: int|
                0 <= i < items@.len() ==> !is_expired(policy, now, #[trigger] items@[i].deletion_time),
            CleanupPlan::Purge(v) => policy != KeepPolicy::AskBeforeDelete && v@.len() > 0
                && expired_positions(policy, now, items@, v@),
            CleanupPlan::Confirm(v) => policy == KeepPolicy::AskBeforeDelete && v@.len() > 0
                && expired_positions(policy, now, items@, v@),
        },
{
    let mut idx: Vec<usize> = Vec::new();
    let mut i: usize = 0;
    while i < items.len()
        invariant
            i <= items@.len(),
            forall|k: int| 0 <= k < idx@.len() ==> #[trigger] idx@[k] < i
                && is_expired(policy, now, items@[idx@[k] as int].deletion_time),
            forall|k1: int, k2: int| 0 <= k1 < k2 < idx@.len() ==> idx@[k1] < idx@[k2],
            forall|j: int| 0 <= j < i && is_expired(policy, now, #[trigger] items@[j].deletion_time)
                ==> idx@.contains(j as usize),
        decreases items@.len() - i,
    {
        if expired(policy, now, items[i].deletion_time) {
            let ghost before = idx@;
            idx.push(i);
            assert forall|j: int| 0 <= j <= i && is_expired(policy, now, #[trigger] items@[j].deletion_time)
                implies idx@.contains(j as usize) by {
                if j < i {
                    let k = choose|k: int| 0 <= k < before.len() && before[k] == j as usize;
                    assert(idx@[k] == j as usize);
                } else {
                    assert(idx@[before.len() as int] == j as usize);
                }
            };
        }
        i = i + 1;
    }
    if idx.len() == 0 {
        assert forall|j: int| 0 <= j < items@.len() implies
            !is_expired(policy, now, #[trigger] items@[j].deletion_time) by {
            if is_expired(policy, now, items@[j].deletion_time) {
                assert(idx@.contains(j as usize));
            }
        };
        CleanupPlan::Nothing
    } else {
        match policy {
            KeepPolicy::AskBeforeDelete => CleanupPlan::Confirm(idx),
            _ => CleanupPlan::Purge(idx),
        }
    }
}

/// Whether an already trimmed and lowercased answer agrees: it is `yes`.
pub fn answer_is_yes(normalized: &str) -> (r: bool)
    ensures
        r == (normalized@ == seq!['y', 'e', 's']),
{
    let v = chars_of(normalized);
    let yes = vec!['y', 'e', 's'];
    assert(yes@ =~= seq!['y', 'e', 's']);
    same_chars(&v, &yes)
}

/// Whether a line that the user typed agrees: `yes` in any letter case, with
/// white space around it or not.  Anything else, the empty line included,
/// declines.
pub fn confirms(answer: &str) -> (r: bool)
    ensures
        r == (lower_of(trimmed(answer@)) == seq!['y', 'e', 's']),
{
    let t = trim_text(answer);
    let l = lowercase(t.as_str());
    answer_is_yes(l.as_str())
}

/// The positions to purge once the plan is settled: all of them when no
/// question was due or the user agreed, none otherwise.
pub fn positions_to_purge(plan: CleanupPlan, agreed: bool) -> (r: Vec<usize>)
    ensures
        r@ == match plan {
            CleanupPlan::Nothing => Seq::<usize>::empty(),
            CleanupPlan::Purge(v) => v@,
            CleanupPlan::Confirm(v) => if agreed { v@ } else { Seq::<usize>::empty() },
        },
{
    match plan {
        CleanupPlan::Nothing => Vec::new(),
        CleanupPlan::Purge(v) => v,
        CleanupPlan::Confirm(v) => if agreed { v } else { Vec::new() },
    }
}

/// Under a policy of `n` days, an item trashed a day or more beyond the `n`
/// days is expired, and one trashed within `n - 1` days is kept; with thirty
/// days, an item of thirty-one days goes and one of twenty-nine stays.
pub proof fn lemma_retention_window(n: i64, now: i64, t: i64)
    requires
        n > 0,
    ensures
        (t as int) <= (now as int) - (n as int + 1) * 86400 ==> is_expired(KeepPolicy::Days(n), now, t),
        (t as int) >= (now as int) - (n as int - 1) * 86400 ==> !is_expired(KeepPolicy::Days(n), now, t),
{
}

} // verus!
