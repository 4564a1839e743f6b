//! Admission against per-account token quotas, and the accounting of usage.

use vstd::prelude::*;
use crate::models::QuotaInfo;

verus! {

/// The counters are never negative.
pub open spec fn quota_wf(q: QuotaInfo) -> bool {
    &&& q.input_quota >= 0
    &&& q.input_used >= 0
    &&& q.output_quota >= 0
    &&& q.output_used >= 0
}

/// Both limits unset: the account is not limited at all.
pub open spec fn unlimited(q: QuotaInfo) -> bool {
    q.input_quota == 0 && q.output_quota == 0
}

/// A request estimated at `estimate` input tokens fits the input limit.
pub open spec fn admits(q: QuotaInfo, estimate: u64) -> bool {
    unlimited(q) || q.input_used + estimate <= q.input_quota
}

/// More output has been produced than the output limit allows.
pub open spec fn output_exhausted(q: QuotaInfo) -> bool {
    !unlimited(q) && q.output_used > q.output_quota
}

/// `used + delta`, held at the largest value a counter can take.
pub open spec fn bumped(used: i64, delta: u64) -> int {
    if used + delta > i64::MAX {
        i64::MAX as int
    } else {
        used + delta
    }
}

/// The counters of an account for which none are stored: no limits, and
/// nothing used.
pub open spec fn unset_quota(account_id: i64) -> QuotaInfo {
    QuotaInfo {
        account_id: account_id,
        input_quota: 0,
        input_used: 0,
        output_quota: 0,
        output_used: 0,
        updated_at: 0,
    }
}

/// The counters that count for account `account_id`: the stored ones, and
/// for an account without stored counters those of an unlimited account
/// that has used nothing.
pub fn quota_or_unlimited(account_id: i64, stored: Option<QuotaInfo>) -> (q: QuotaInfo)
    ensures
        q == match stored {
            Some(s) => s,
            None => unset_quota(account_id),
        },
        stored is None ==> unlimited(q) && quota_wf(q) && q.account_id == account_id,
{
    match stored {
        Some(s) => s,
        None => QuotaInfo {
            account_id,
            input_quota: 0,
            input_used: 0,
            output_quota: 0,
            output_used: 0,
            updated_at: 0,
        },
    }
}

/// Whether a request estimated at `estimate` input tokens may be sent
/// through the account that `q` belongs to.
pub fn can_admit(q: &QuotaInfo, estimate: u64) -> (ok: bool)
    ensures
        ok == admits(*q, estimate),
{
    if q.input_quota == 0 && q.output_quota == 0 {
        return true;
    }
    let wanted: i128 = q.input_used as i128 + estimate as i128;
    wanted <= q.input_quota as i128
}

/// Whether the account has produced more output than its limit allows.
pub fn is_output_exhausted(q: &QuotaInfo) -> (gone: bool)
    ensures
        gone == output_exhausted(*q),
{
    !(q.input_quota == 0 && q.output_quota == 0) && q.output_used > q.output_quota
}

/// Adds `delta` to `used`, stopping at the largest value of the counter.
pub fn bump(used: i64, delta: u64) -> (r: i64)
    ensures
        r == bumped(used, delta),
{
    let wide: i128 = used as i128 + delta as i128;
    if wide > i64::MAX as i128 {
        i64::MAX
    } else {
        wide as i64
    }
}

/// Records the tokens that a completed request consumed. The usage counters
/// grow by exactly the given amounts, or stop at the largest value they can
/// hold; the limits are left as they were. Returns whether the account has
/// now produced more output than its limit allows.
pub fn commit(q: &mut QuotaInfo, input_tokens: u64, output_tokens: u64, now: i64) -> (spent: bool)
    ensures
        final(q).input_used == bumped(old(q).input_used, input_tokens),
        final(q).output_used == bumped(old(q).output_used, output_tokens),
        final(q).account_id == old(q).account_id,
        final(q).input_quota == old(q).input_quota,
        final(q).output_quota == old(q).output_quota,
        final(q).updated_at == now,
        spent == output_exhausted(*final(q)),
{
    q.input_used = bump(q.input_used, input_tokens);
    q.output_used = bump(q.output_used, output_tokens);
    q.updated_at = now;
    is_output_exhausted(q)
}

/// Committing usage never lowers a counter, and raises each by exactly the
/// committed amount as long as the sum fits the counter.
pub proof fn commit_is_monotone(used: i64, delta: u64)
    ensures
        bumped(used, delta) >= used,
        used + delta <= i64::MAX ==> bumped(used, delta) == used + delta,
{
}

} // verus!
