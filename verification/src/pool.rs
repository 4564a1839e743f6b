//! The pool of accounts that requests are served from, each with its quota
//! counters and a temporary-ineligibility overlay that is kept in memory only.

use vstd::prelude::*;
use crate::models::{Account, QuotaInfo};
use crate::quota::{bumped, commit, output_exhausted, quota_wf};

verus! {

/// Why an account was suspended for a while.
#[derive(Debug, Clone, Copy, PartialEq, Eq, Structural)]
pub enum IneligibleReason {
    TokenRefreshFailed,
    UpstreamRejected,
    UpstreamUnavailable,
    OutputQuotaExceeded,
}

/// One account of the pool, with what the scheduler needs to know of it.
#[derive(Debug)]
pub struct PoolEntry {
    pub account: Account,
    pub quota: QuotaInfo,
    /// The account is suspended while the current time is before this.
    pub cooldown_until: i64,
    pub cooldown_reason: Option<IneligibleReason>,
    /// Moving average of the observed latency; `None` until a call completed.
    pub latency_ewma_ms: Option<u64>,
}

impl Clone for PoolEntry {
    fn clone(&self) -> (r: Self)
        ensures
            r == *self,
    {
        PoolEntry {
            account: self.account.clone(),
            quota: self.quota,
            cooldown_until: self.cooldown_until,
            cooldown_reason: self.cooldown_reason,
            latency_ewma_ms: self.latency_ewma_ms,
        }
    }
}

/// The account is suspended at time `now`.
pub open spec fn cooling(e: PoolEntry, now: i64) -> bool {
    now < e.cooldown_until
}

/// The entry's counters are valid and belong to its account.
pub open spec fn entry_wf(e: PoolEntry) -> bool {
    quota_wf(e.quota) && e.quota.account_id == e.account.id
}

/// No two entries share an account id.
pub open spec fn distinct_ids(s: Seq<PoolEntry>) -> bool {
    forall|i: int, j: int|
        0 <= i < s.len() && 0 <= j < s.len() && i != j ==> s[i].account.id != s[j].account.id
}

/// The entries stand in ascending sort order.
pub open spec fn ordered(s: Seq<PoolEntry>) -> bool {
    forall|i: int, j: int|
        0 <= i <= j < s.len() ==> s[i].account.sort_order <= s[j].account.sort_order
}

/// No two entries share an email.
pub open spec fn distinct_emails(s: Seq<PoolEntry>) -> bool {
    forall|i: int, j: int|
        0 <= i < s.len() && 0 <= j < s.len() && i != j ==> s[i].account.email@ != s[j].account.email@
}

/// Some entry of `s` belongs to the account with `email`.
pub open spec fn has_email(s: Seq<PoolEntry>, email: Seq<char>) -> bool {
    exists|i: int| 0 <= i < s.len() && (#[trigger] s[i]).account.email@ == email
}

/// What holds of every pool: valid entries, distinct ids, distinct emails,
/// ascending sort order.
pub open spec fn entries_wf(s: Seq<PoolEntry>) -> bool {
    &&& forall|i: int| 0 <= i < s.len() ==> entry_wf(#[trigger] s[i])
    &&& distinct_ids(s)
    &&& distinct_emails(s)
    &&& ordered(s)
}

/// Some entry of `s` belongs to account `id`.
pub open spec fn has_id(s: Seq<PoolEntry>, id: i64) -> bool {
    exists|i: int| 0 <= i < s.len() && (#[trigger] s[i]).account.id == id
}

/// The place where an entry with sort order `order` goes: behind every entry
/// whose sort order is not greater.
pub open spec fn slot_for(s: Seq<PoolEntry>, order: i32) -> int
    decreases s.len(),
{
    if s.len() == 0 {
        0
    } else if s.last().account.sort_order <= order {
        s.len() as int
    } else {
        slot_for(s.drop_last(), order)
    }
}

/// The active entries of `s`, in the order in which they stand.
pub open spec fn active_part(s: Seq<PoolEntry>) -> Seq<PoolEntry>
    decreases s.len(),
{
    if s.len() == 0 {
        s
    } else if s.last().account.is_active {
        active_part(s.drop_last()).push(s.last())
    } else {
        active_part(s.drop_last())
    }
}

/// `e` with its suspension set to end at `until`, for `reason`.
pub open spec fn suspended(e: PoolEntry, reason: IneligibleReason, until: i64) -> PoolEntry {
    PoolEntry { cooldown_until: until, cooldown_reason: Some(reason), ..e }
}

/// `now + secs`, held at the largest time that can be written.
pub open spec fn deadline(now: i64, secs: u32) -> i64 {
    if now + secs > i64::MAX {
        i64::MAX
    } else {
        (now + secs) as i64
    }
}

/// The moving average after one more sample: the first sample as it is,
/// later ones weighted one to seven against what was observed before.
pub open spec fn averaged(prev: Option<u64>, sample: u32) -> u64 {
    match prev {
        None => sample as u64,
        Some(p) => ((p as int * 7 + sample as int) / 8) as u64,
    }
}

/// `e` after a completed call that took `sample` milliseconds.
pub open spec fn observed(e: PoolEntry, sample: u32) -> PoolEntry {
    PoolEntry { latency_ewma_ms: Some(averaged(e.latency_ewma_ms, sample)), ..e }
}

/// `e` after `input` and `output` tokens were spent on it at time `now`.
pub open spec fn charged(e: PoolEntry, input: u64, output: u64, now: i64) -> PoolEntry {
    PoolEntry {
        quota: QuotaInfo {
            input_used: bumped(e.quota.input_used, input) as i64,
            output_used: bumped(e.quota.output_used, output) as i64,
            updated_at: now,
            ..e.quota
        },
        ..e
    }
}

/// `after` is `before` with the access token `token`, which expires at
/// `expires_at`, written at time `now`; a suspension for a failed refresh is
/// kept, since nothing here lifts one.
pub open spec fn renewed(
    before: PoolEntry,
    after: PoolEntry,
    token: Seq<char>,
    expires_at: i64,
    now: i64,
) -> bool {
    &&& after.account.access_token@ == token
    &&& after.account.expires_at == expires_at
    &&& after.account.updated_at == now
    &&& after.account.id == before.account.id
    &&& after.account.email == before.account.email
    &&& after.account.display_name == before.account.display_name
    &&& after.account.photo_url == before.account.photo_url
    &&& after.account.refresh_token == before.account.refresh_token
    &&& after.account.is_active == before.account.is_active
    &&& after.account.sort_order == before.account.sort_order
    &&& after.account.created_at == before.account.created_at
    &&& after.quota == before.quota
    &&& after.cooldown_until == before.cooldown_until
    &&& after.cooldown_reason == before.cooldown_reason
    &&& after.latency_ewma_ms == before.latency_ewma_ms
}

/// The email of account `id`, if `s` holds the account. In a pool no two
/// accounts share an id, so that there is one such email at most.
pub open spec fn email_of(s: Seq<PoolEntry>, id: i64) -> Option<String>
    decreases s.len(),
{
    if s.len() == 0 {
        None
    } else if s.last().account.id == id {
        Some(s.last().account.email)
    } else {
        email_of(s.drop_last(), id)
    }
}

/// A new entry: not suspended, with no latency observed yet.
pub open spec fn fresh_entry(account: Account, quota: QuotaInfo) -> PoolEntry {
    PoolEntry {
        account: account,
        quota: quota,
        cooldown_until: 0,
        cooldown_reason: None,
        latency_ewma_ms: None,
    }
}

/// `s` with the entry of account `id` suspended until `until`, for `reason`.
pub open spec fn with_suspended(
    s: Seq<PoolEntry>,
    id: i64,
    reason: IneligibleReason,
    until: i64,
) -> Seq<PoolEntry> {
    s.map_values(
        |e: PoolEntry|
            if e.account.id == id {
                suspended(e, reason, until)
            } else {
                e
            },
    )
}

/// `s` with one more latency sample for account `id`.
pub open spec fn with_observed(s: Seq<PoolEntry>, id: i64, sample: u32) -> Seq<PoolEntry> {
    s.map_values(
        |e: PoolEntry|
            if e.account.id == id {
                observed(e, sample)
            } else {
                e
            },
    )
}

/// `s` with the usage of account `id` raised by `input` and `output`.
pub open spec fn with_charged(
    s: Seq<PoolEntry>,
    id: i64,
    input: u64,
    output: u64,
    now: i64,
) -> Seq<PoolEntry> {
    s.map_values(
        |e: PoolEntry|
            if e.account.id == id {
                charged(e, input, output, now)
            } else {
                e
            },
    )
}

/// The accounts that requests can be served from.
pub struct AccountPool {
    entries: Vec<PoolEntry>,
}

impl AccountPool {
    /// The entries, in ascending sort order.
    pub closed spec fn view(&self) -> Seq<PoolEntry> {
        self.entries@
    }

    /// The invariant of the pool.
    pub open spec fn wf(&self) -> bool {
        entries_wf(self@)
    }

    /// A pool without accounts.
    pub fn new() -> (pool: Self)
        ensures
            pool@ == Seq::<PoolEntry>::empty(),
            pool.wf(),
    {
        AccountPool { entries: Vec::new() }
    }

    /// How many accounts the pool holds.
    pub fn len(&self) -> (n: usize)
        ensures
            n == self@.len(),
    {
        self.entries.len()
    }

    /// The entry at place `i`.
    pub fn entry(&self, i: usize) -> (e: &PoolEntry)
        requires
            i < self@.len(),
        ensures
            *e == self@[i as int],
    {
        &self.entries[i]
    }

    /// The place of account `id`, if the pool holds it.
    pub fn position(&self, id: i64) -> (at: Option<usize>)
        ensures
            match at {
                Some(i) => i < self@.len() && self@[i as int].account.id == id
                    && forall|j: int| 0 <= j < i ==> self@[j].account.id != id,
                None => !has_id(self@, id),
            },
    {
        let mut i: usize = 0;
        while i < self.entries.len()
            invariant
                i <= self.entries@.len(),
                forall|j: int| 0 <= j < i ==> self.entries@[j].account.id != id,
            decreases self.entries@.len() - i,
        {
            if self.entries[i].account.id == id {
                return Some(i);
            }
            i += 1;
        }
        None
    }

    /// The email of account `id`, if the pool holds the account.
    pub fn email(&self, id: i64) -> (email: Option<String>)
        ensures
            email == email_of(self@, id),
    {
        let mut i: usize = self.entries.len();
        proof {
            assert(self.entries@.take(i as int) =~= self.entries@);
        }
        while i > 0
            invariant
                i <= self.entries@.len(),
                email_of(self.entries@, id) == email_of(self.entries@.take(i as int), id),
            decreases i,
        {
            proof {
                assert(self.entries@.take(i as int).drop_last() =~= self.entries@.take(i - 1));
            }
            if self.entries[i - 1].account.id == id {
                return Some(self.entries[i - 1].account.email.clone());
            }
            i -= 1;
        }
        None
    }

    /// Whether the pool holds an account with `email`.
    pub fn holds_email(&self, email: &String) -> (found: bool)
        ensures
            found == has_email(self@, email@),
    {
        let mut i: usize = 0;
        while i < self.entries.len()
            invariant
                i <= self.entries@.len(),
                forall|j: int| 0 <= j < i ==> (#[trigger] self.entries@[j]).account.email@ != email@,
            decreases self.entries@.len() - i,
        {
            if self.entries[i].account.email == *email {
                return true;
            }
            i += 1;
        }
        false
    }

    /// Adds an account with its quota counters, behind the accounts whose
    /// sort order is not greater. Nothing is added where the pool already
    /// holds the account's id or its email, or where the counters are
    /// negative or belong to another account.
    pub fn insert(&mut self, account: Account, quota: QuotaInfo) -> (added: bool)
        requires
            old(self).wf(),
        ensures
            final(self).wf(),
            added == (!has_id(old(self)@, account.id) && !has_email(old(self)@, account.email@)
                && entry_wf(fresh_entry(account, quota))),
            added ==> final(self)@ == old(self)@.insert(
                slot_for(old(self)@, account.sort_order),
                fresh_entry(account, quota),
            ),
            !added ==> final(self)@ == old(self)@,
    {
        if quota.input_quota < 0 || quota.input_used < 0 || quota.output_quota < 0
            || quota.output_used < 0 || quota.account_id != account.id {
            return false;
        }
        if self.position(account.id).is_some() || self.holds_email(&account.email) {
            return false;
        }
        let order = account.sort_order;
        let mut i: usize = self.entries.len();
        proof {
            assert(self.entries@.take(i as int) =~= self.entries@);
        }
        while i > 0 && self.entries[i - 1].account.sort_order > order
            invariant
                i <= self.entries@.len(),
                slot_for(self.entries@, order) == slot_for(self.entries@.take(i as int), order),
                forall|j: int| i <= j < self.entries@.len() ==> self.entries@[j].account.sort_order > order,
            decreases i,
        {
            proof {
                assert(self.entries@.take(i as int).drop_last() =~= self.entries@.take(i - 1));
            }
            i -= 1;
        }
        let entry = PoolEntry {
            account,
            quota,
            cooldown_until: 0,
            cooldown_reason: None,
            latency_ewma_ms: None,
        };
        proof {
            let s = self.entries@;
            assert(slot_for(s, order) == i);
            let t = s.insert(i as int, entry);
            assert forall|a: int, b: int| 0 <= a <= b < t.len() implies t[a].account.sort_order
                <= t[b].account.sort_order by {
                if a < i && b > i {
                    assert(s[a].account.sort_order <= s[i - 1].account.sort_order);
                }
            }
            assert forall|a: int, b: int| 0 <= a < t.len() && 0 <= b < t.len() && a != b implies t[a].account.id
                != t[b].account.id by {
                let a0 = if a < i { a } else { a - 1 };
                let b0 = if b < i { b } else { b - 1 };
                if a != i && b != i {
                    assert(s[a0].account.id != s[b0].account.id);
                } else if a == i {
                    assert(s[b0].account.id != entry.account.id);
                } else {
                    assert(s[a0].account.id != entry.account.id);
                }
            }
            assert forall|a: int, b: int| 0 <= a < t.len() && 0 <= b < t.len() && a != b implies t[a].account.email@
                != t[b].account.email@ by {
                let a0 = if a < i { a } else { a - 1 };
                let b0 = if b < i { b } else { b - 1 };
                if a != i && b != i {
                    assert(s[a0].account.email@ != s[b0].account.email@);
                } else if a == i {
                    assert(s[b0].account.email@ != entry.account.email@);
                } else {
                    assert(s[a0].account.email@ != entry.account.email@);
                }
            }
            assert forall|a: int| 0 <= a < t.len() implies entry_wf(#[trigger] t[a]) by {
                if a != i {
                    let a0 = if a < i { a } else { a - 1 };
                    assert(entry_wf(s[a0]));
                }
            }
        }
        self.entries.insert(i, entry);
        true
    }

    /// The active accounts with their counters, in ascending sort order.
    pub fn snapshot(&self) -> (list: Vec<PoolEntry>)
        ensures
            list@ == active_part(self@),
    {
        let mut list: Vec<PoolEntry> = Vec::new();
        let mut i: usize = 0;
        while i < self.entries.len()
            invariant
                i <= self.entries@.len(),
                list@ == active_part(self.entries@.take(i as int)),
            decreases self.entries@.len() - i,
        {
            proof {
                assert(self.entries@.take(i + 1).drop_last() =~= self.entries@.take(i as int));
            }
            if self.entries[i].account.is_active {
                list.push(self.entries[i].clone());
            }
            i += 1;
        }
        proof {
            assert(self.entries@.take(self.entries@.len() as int) =~= self.entries@);
        }
        list
    }

    /// Suspends account `id` for `secs` seconds from `now`, without
    /// deactivating it: the suspension ends by itself. Returns whether the
    /// pool holds the account.
    pub fn mark_ineligible(&mut self, id: i64, reason: IneligibleReason, now: i64, secs: u32) -> (found: bool)
        requires
            old(self).wf(),
        ensures
            final(self).wf(),
            found == has_id(old(self)@, id),
            final(self)@ == with_suspended(old(self)@, id, reason, deadline(now, secs)),
    {
        let until: i64 = if now > i64::MAX - secs as i64 {
            i64::MAX
        } else {
            now + secs as i64
        };
        match self.position(id) {
            Some(i) => {
                self.entries[i].cooldown_until = until;
                self.entries[i].cooldown_reason = Some(reason);
                proof {
                    assert(self.entries@ =~= with_suspended(old(self)@, id, reason, until));
                }
                true
            },
            None => {
                proof {
                    assert(self.entries@ =~= with_suspended(old(self)@, id, reason, until));
                }
                false
            },
        }
    }

    /// Takes one more latency sample, in milliseconds, into the moving
    /// average of account `id`. Returns whether the pool holds the account.
    pub fn record_latency(&mut self, id: i64, sample: u32) -> (found: bool)
        requires
            old(self).wf(),
        ensures
            final(self).wf(),
            found == has_id(old(self)@, id),
            final(self)@ == with_observed(old(self)@, id, sample),
    {
        match self.position(id) {
            Some(i) => {
                let next: u64 = match self.entries[i].latency_ewma_ms {
                    None => sample as u64,
                    Some(p) => ((p as u128 * 7 + sample as u128) / 8) as u64,
                };
                self.entries[i].latency_ewma_ms = Some(next);
                proof {
                    assert(self.entries@ =~= with_observed(old(self)@, id, sample));
                }
                true
            },
            None => {
                proof {
                    assert(self.entries@ =~= with_observed(old(self)@, id, sample));
                }
                false
            },
        }
    }

    /// Records the tokens that a completed request spent on account `id`:
    /// each usage counter grows by exactly the given amount, or stops at the
    /// largest value it can hold. Returns `None` where the pool does not
    /// hold the account, else whether the account has now produced more
    /// output than its limit allows.
    pub fn commit(&mut self, id: i64, input: u64, output: u64, now: i64) -> (spent: Option<bool>)
        requires
            old(self).wf(),
        ensures
            final(self).wf(),
            final(self)@ == with_charged(old(self)@, id, input, output, now),
            spent.is_some() == has_id(old(self)@, id),
            forall|i: int|
                0 <= i < old(self)@.len() && old(self)@[i].account.id == id ==> spent == Some(
                    output_exhausted(charged(#[trigger] old(self)@[i], input, output, now).quota),
                ),
    {
        match self.position(id) {
            Some(i) => {
                let spent = commit(&mut self.entries[i].quota, input, output, now);
                proof {
                    assert(entry_wf(old(self)@[i as int]));
                    assert(self.entries@[i as int].quota == charged(
                        old(self)@[i as int],
                        input,
                        output,
                        now,
                    ).quota);
                    assert(self.entries@ =~= with_charged(old(self)@, id, input, output, now));
                }
                Some(spent)
            },
            None => {
                proof {
                    assert(self.entries@ =~= with_charged(old(self)@, id, input, output, now));
                }
                None
            },
        }
    }

    /// Stores a new access token for account `id`, with its expiry. Returns
    /// whether the pool holds the account.
    pub fn set_tokens(&mut self, id: i64, access_token: String, expires_at: i64, now: i64) -> (found: bool)
        requires
            old(self).wf(),
        ensures
            final(self).wf(),
            found == has_id(old(self)@, id),
            final(self)@.len() == old(self)@.len(),
            forall|i: int|
                0 <= i < old(self)@.len() ==> if old(self)@[i].account.id == id {
                    renewed(old(self)@[i], #[trigger] final(self)@[i], access_token@, expires_at, now)
                } else {
                    final(self)@[i] == old(self)@[i]
                },
    {
        match self.position(id) {
            Some(i) => {
                self.entries[i].account.access_token = access_token;
                self.entries[i].account.expires_at = expires_at;
                self.entries[i].account.updated_at = now;
                proof {
                    assert(entry_wf(old(self)@[i as int]));
                }
                true
            },
            None => false,
        }
    }
}

/// What a snapshot holds: every entry is active, and the entries stand in
/// ascending sort order.
pub proof fn snapshot_is_active_and_ordered(s: Seq<PoolEntry>)
    requires
        ordered(s),
    ensures
        forall|i: int| 0 <= i < active_part(s).len() ==> (#[trigger] active_part(s)[i]).account.is_active,
        ordered(active_part(s)),
        forall|i: int|
            0 <= i < active_part(s).len() ==> s.contains(#[trigger] active_part(s)[i]),
        forall|i: int|
            0 <= i < s.len() && s[i].account.is_active ==> active_part(s).contains(#[trigger] s[i]),
    decreases s.len(),
{
    if s.len() > 0 {
        let rest = s.drop_last();
        snapshot_is_active_and_ordered(rest);
        let a = active_part(s);
        let ar = active_part(rest);
        assert forall|i: int| 0 <= i < a.len() implies s.contains(#[trigger] a[i]) by {
            if i < ar.len() {
                assert(rest.contains(ar[i]));
                let k = choose|k: int| 0 <= k < rest.len() && rest[k] == ar[i];
                assert(s[k] == a[i]);
            } else {
                assert(s[s.len() - 1] == a[i]);
            }
        }
        assert forall|i: int| 0 <= i < s.len() && s[i].account.is_active implies a.contains(
            #[trigger] s[i],
        ) by {
            if i < rest.len() {
                assert(rest[i] == s[i]);
                assert(ar.contains(rest[i]));
                let k = choose|k: int| 0 <= k < ar.len() && ar[k] == rest[i];
                assert(a[k] == s[i]);
            } else {
                assert(a[a.len() - 1] == s[i]);
            }
        }
        assert forall|i: int, j: int| 0 <= i <= j < a.len() implies a[i].account.sort_order
            <= a[j].account.sort_order by {
            if j >= ar.len() && i < ar.len() {
                assert(rest.contains(ar[i]));
                let k = choose|k: int| 0 <= k < rest.len() && rest[k] == ar[i];
                assert(s[k].account.sort_order <= s[s.len() - 1].account.sort_order);
            }
        }
    }
}

} // verus!
