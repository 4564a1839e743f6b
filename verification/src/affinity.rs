//! Session affinity: which account a session was last served from.
//!
//! Bindings live in memory only. One that has not been used for
//! [`SESSION_TTL_SECS`] counts as absent, and a sweep removes such bindings
//! together with those whose account can no longer serve.

use vstd::prelude::*;
use crate::models::{clone_opt_string, text_of};

verus! {

/// Seconds after which an unused binding no longer counts.
pub const SESSION_TTL_SECS: i64 = 1800;

/// One binding as it is stored. Without a model it is the binding of the
/// session; with one it records which account last served that model in
/// the session.
#[derive(Debug)]
pub struct SessionBinding {
    pub session_key: String,
    pub model: Option<String>,
    pub account_id: i64,
    pub last_used_at: i64,
}

/// What a binding is found by: the session key, and the model where the
/// binding is one for a model.
pub type BindingKey = (Seq<char>, Option<Seq<char>>);

/// The key under which a stored binding is found.
pub open spec fn key_of(b: SessionBinding) -> BindingKey {
    (b.session_key@, text_of(b.model))
}

/// What a session key is bound to.
pub struct Bound {
    pub account_id: i64,
    pub last_used_at: i64,
}

/// The binding has not been used for longer than the idle timeout.
pub open spec fn idle(b: Bound, now: i64) -> bool {
    now - b.last_used_at > SESSION_TTL_SECS
}

/// The account that `key` is bound to at time `now`, if a binding exists
/// that is not idle.
pub open spec fn live_binding(m: Map<BindingKey, Bound>, key: BindingKey, now: i64) -> Option<i64> {
    if m.contains_key(key) && !idle(m[key], now) {
        Some(m[key].account_id)
    } else {
        None
    }
}

/// The bindings of `m` that are not idle at `now` and whose account is
/// among `usable`.
pub open spec fn swept(m: Map<BindingKey, Bound>, usable: Seq<i64>, now: i64) -> Map<BindingKey, Bound> {
    m.restrict(Set::new(|k: BindingKey| m.contains_key(k) && stays(m[k], usable, now)))
}

/// A binding that a sweep at `now` keeps: it is not idle, and its account is
/// among `usable`.
pub open spec fn stays(b: Bound, usable: Seq<i64>, now: i64) -> bool {
    !idle(b, now) && usable.contains(b.account_id)
}

/// What a stored binding binds its key to.
pub open spec fn bound_of(b: SessionBinding) -> Bound {
    Bound { account_id: b.account_id, last_used_at: b.last_used_at }
}

/// The map that a list of bindings stands for; of two bindings with one
/// key the later counts.
pub open spec fn as_map(s: Seq<SessionBinding>) -> Map<BindingKey, Bound>
    decreases s.len(),
{
    if s.len() == 0 {
        Map::empty()
    } else {
        as_map(s.drop_last()).insert(key_of(s.last()), bound_of(s.last()))
    }
}

/// No two bindings of `s` have the same key.
pub open spec fn distinct_keys(s: Seq<SessionBinding>) -> bool {
    forall|i: int, j: int|
        0 <= i < s.len() && 0 <= j < s.len() && i != j ==> key_of(s[i]) != key_of(s[j])
}

/// With distinct keys, the map holds exactly the keys of the list, each with
/// what its binding says.
pub proof fn as_map_holds(s: Seq<SessionBinding>)
    requires
        distinct_keys(s),
    ensures
        forall|i: int|
            0 <= i < s.len() ==> as_map(s).contains_key(#[trigger] key_of(s[i])) && as_map(
                s,
            )[key_of(s[i])] == bound_of(s[i]),
        forall|k: BindingKey| #[trigger]
            as_map(s).contains_key(k) ==> exists|i: int| 0 <= i < s.len() && key_of(s[i]) == k,
    decreases s.len(),
{
    if s.len() > 0 {
        let rest = s.drop_last();
        as_map_holds(rest);
        assert forall|i: int| 0 <= i < s.len() implies as_map(s).contains_key(
            #[trigger] key_of(s[i]),
        ) && as_map(s)[key_of(s[i])] == bound_of(s[i]) by {
            if i < rest.len() {
                assert(rest[i] == s[i]);
                assert(key_of(s[i]) != key_of(s[s.len() - 1]));
            }
        }
        assert forall|k: BindingKey| #[trigger] as_map(s).contains_key(k) implies exists|i: int|
            0 <= i < s.len() && key_of(s[i]) == k by {
            if k == key_of(s.last()) {
                assert(key_of(s[s.len() - 1]) == k);
            } else {
                assert(as_map(rest).contains_key(k));
                let i = choose|i: int| 0 <= i < rest.len() && key_of(rest[i]) == k;
                assert(key_of(s[i]) == k);
            }
        }
    }
}

/// The bindings of all sessions.
pub struct AffinityMap {
    bindings: Vec<SessionBinding>,
}

impl AffinityMap {
    /// The bindings, by session key.
    pub closed spec fn view(&self) -> Map<BindingKey, Bound> {
        as_map(self.bindings@)
    }

    /// The invariant of the map: each key is stored once.
    pub closed spec fn wf(&self) -> bool {
        distinct_keys(self.bindings@)
    }

    /// A map without bindings.
    pub fn new() -> (m: Self)
        ensures
            m.wf(),
            m@ == Map::<BindingKey, Bound>::empty(),
    {
        AffinityMap { bindings: Vec::new() }
    }

    /// How many bindings are stored.
    pub fn len(&self) -> (n: usize)
        requires
            self.wf(),
        ensures
            n == self@.dom().len(),
            self@.dom().finite(),
    {
        proof {
            count_keys(self.bindings@);
        }
        self.bindings.len()
    }

    /// Where the binding of `session`, for `model` or for the session as a
    /// whole, is stored.
    fn find(&self, session: &String, model: &Option<String>) -> (at: Option<usize>)
        ensures
            match at {
                Some(i) => i < self.bindings@.len() && key_of(self.bindings@[i as int]) == (session@, text_of(*model)),
                None => forall|j: int|
                    0 <= j < self.bindings@.len() ==> key_of(self.bindings@[j]) != (session@, text_of(*model)),
            },
    {
        let mut i: usize = 0;
        while i < self.bindings.len()
            invariant
                i <= self.bindings@.len(),
                forall|j: int| 0 <= j < i ==> key_of(self.bindings@[j]) != (session@, text_of(*model)),
            decreases self.bindings@.len() - i,
        {
            if self.bindings[i].session_key == *session && same_model(&self.bindings[i].model, model) {
                return Some(i);
            }
            i += 1;
        }
        None
    }

    /// The account that `session` is bound to, for `model` or for the
    /// session as a whole, unless the binding is idle at `now`.
    pub fn binding_for(&self, session: &String, model: &Option<String>, now: i64) -> (id: Option<i64>)
        requires
            self.wf(),
        ensures
            id == live_binding(self@, (session@, text_of(*model)), now),
    {
        proof {
            as_map_holds(self.bindings@);
        }
        match self.find(session, model) {
            Some(i) => {
                let b = &self.bindings[i];
                let gone = now as i128 - b.last_used_at as i128 > SESSION_TTL_SECS as i128;
                if gone {
                    None
                } else {
                    Some(b.account_id)
                }
            },
            None => None,
        }
    }

    /// Binds `session`, for `model` or as a whole, to `account_id`, used at
    /// `now`; an earlier binding under the same key is replaced.
    pub fn bind(&mut self, session: String, model: Option<String>, account_id: i64, now: i64)
        requires
            old(self).wf(),
        ensures
            final(self).wf(),
            final(self)@ == old(self)@.insert((session@, text_of(model)), Bound { account_id, last_used_at: now }),
    {
        proof {
            as_map_holds(self.bindings@);
        }
        match self.find(&session, &model) {
            Some(i) => {
                self.bindings[i].account_id = account_id;
                self.bindings[i].last_used_at = now;
                proof {
                    let s = old(self).bindings@;
                    let t = self.bindings@;
                    assert forall|a: int, b: int|
                        0 <= a < t.len() && 0 <= b < t.len() && a != b implies key_of(t[a])
                        != key_of(t[b]) by {
                        assert(key_of(s[a]) != key_of(s[b]));
                    }
                    as_map_holds(t);
                    let want = as_map(s).insert((session@, text_of(model)), Bound { account_id, last_used_at: now });
                    assert forall|k: BindingKey| as_map(t).contains_key(k) <==> want.contains_key(
                        k,
                    ) by {
                        if as_map(t).contains_key(k) {
                            let j = choose|j: int| 0 <= j < t.len() && key_of(t[j]) == k;
                            assert(key_of(s[j]) == k);
                        }
                        if as_map(s).contains_key(k) {
                            let j = choose|j: int| 0 <= j < s.len() && key_of(s[j]) == k;
                            assert(key_of(t[j]) == k);
                        }
                        if k == (session@, text_of(model)) {
                            assert(key_of(t[i as int]) == k);
                        }
                    }
                    assert forall|k: BindingKey| as_map(t).contains_key(k) implies as_map(t)[k]
                        == want[k] by {
                        let j = choose|j: int| 0 <= j < t.len() && key_of(t[j]) == k;
                        assert(key_of(s[j]) == k);
                    }
                    assert(as_map(t) =~= want);
                }
            },
            None => {
                let b = SessionBinding { session_key: session, model, account_id, last_used_at: now };
                self.bindings.push(b);
                proof {
                    let s = old(self).bindings@;
                    let t = self.bindings@;
                    assert(t.drop_last() =~= s);
                }
            },
        }
    }

    /// Removes the binding of `session`, for `model` or as a whole. Returns
    /// whether there was one.
    pub fn unbind(&mut self, session: &String, model: &Option<String>) -> (was: bool)
        requires
            old(self).wf(),
        ensures
            final(self).wf(),
            was == old(self)@.contains_key((session@, text_of(*model))),
            final(self)@ == old(self)@.remove((session@, text_of(*model))),
    {
        proof {
            as_map_holds(self.bindings@);
        }
        match self.find(session, model) {
            Some(i) => {
                let _ = self.bindings.remove(i);
                proof {
                    let s = old(self).bindings@;
                    let t = self.bindings@;
                    assert forall|a: int, b: int|
                        0 <= a < t.len() && 0 <= b < t.len() && a != b implies key_of(t[a])
                        != key_of(t[b]) by {
                        let a0 = if a < i { a } else { a + 1 };
                        let b0 = if b < i { b } else { b + 1 };
                        assert(key_of(s[a0]) != key_of(s[b0]));
                    }
                    as_map_holds(t);
                    let want = as_map(s).remove((session@, text_of(*model)));
                    assert forall|k: BindingKey| as_map(t).contains_key(k) <==> want.contains_key(
                        k,
                    ) by {
                        if as_map(t).contains_key(k) {
                            let j = choose|j: int| 0 <= j < t.len() && key_of(t[j]) == k;
                            let j0 = if j < i { j } else { j + 1 };
                            assert(key_of(s[j0]) == k);
                            assert(key_of(s[j0]) != key_of(s[i as int]));
                        }
                        if want.contains_key(k) {
                            let j = choose|j: int| 0 <= j < s.len() && key_of(s[j]) == k;
                            let j1 = if j < i { j } else { j - 1 };
                            assert(key_of(t[j1]) == k);
                        }
                    }
                    assert forall|k: BindingKey| as_map(t).contains_key(k) implies as_map(t)[k]
                        == want[k] by {
                        let j = choose|j: int| 0 <= j < t.len() && key_of(t[j]) == k;
                        let j0 = if j < i { j } else { j + 1 };
                        assert(key_of(s[j0]) == k);
                    }
                    assert(as_map(t) =~= want);
                }
                true
            },
            None => {
                proof {
                    assert(!self@.contains_key((session@, text_of(*model)))) by {
                        if as_map(self.bindings@).contains_key((session@, text_of(*model))) {
                            let j = choose|j: int|
                                0 <= j < self.bindings@.len() && key_of(self.bindings@[j])
                                    == (session@, text_of(*model));
                        }
                    }
                    assert(self@ =~= old(self)@.remove((session@, text_of(*model))));
                }
                false
            },
        }
    }

    /// Removes the bindings that are idle at `now`, and those of accounts
    /// that are not among `usable`.
    pub fn sweep(&mut self, usable: &Vec<i64>, now: i64)
        requires
            old(self).wf(),
        ensures
            final(self).wf(),
            final(self)@ == swept(old(self)@, usable@, now),
    {
        let mut kept: Vec<SessionBinding> = Vec::new();
        let mut i: usize = 0;
        while i < self.bindings.len()
            invariant
                i <= self.bindings@.len(),
                distinct_keys(self.bindings@),
                forall|j: int|
                    0 <= j < kept@.len() ==> exists|k: int|
                        0 <= k < i && self.bindings@[k] == #[trigger] kept@[j],
                forall|j: int|
                    0 <= j < kept@.len() ==> stays(bound_of(#[trigger] kept@[j]), usable@, now),
                forall|k: int|
                    0 <= k < i && stays(bound_of(self.bindings@[k]), usable@, now) ==> exists|j: int|
                        0 <= j < kept@.len() && kept@[j] == #[trigger] self.bindings@[k],
                distinct_keys(kept@),
            decreases self.bindings@.len() - i,
        {
            let b = &self.bindings[i];
            let gone = now as i128 - b.last_used_at as i128 > SESSION_TTL_SECS as i128;
            if !gone && holds_id(usable, b.account_id) {
                let copy = SessionBinding {
                    session_key: b.session_key.clone(),
                    model: clone_opt_string(&b.model),
                    account_id: b.account_id,
                    last_used_at: b.last_used_at,
                };
                proof {
                    let ghost before = kept@;
                    assert(copy == self.bindings@[i as int]);
                    assert forall|a: int| 0 <= a < before.len() implies key_of(before[a])
                        != key_of(copy) by {
                        let k = choose|k: int| 0 <= k < i && self.bindings@[k] == before[a];
                        assert(key_of(self.bindings@[k]) != key_of(self.bindings@[i as int]));
                    }
                }
                let ghost before = kept@;
                kept.push(copy);
                proof {
                    assert forall|k: int|
                        0 <= k < i + 1 && stays(
                            bound_of(self.bindings@[k]),
                            usable@,
                            now,
                        ) implies exists|j: int|
                        0 <= j < kept@.len() && kept@[j] == #[trigger] self.bindings@[k] by {
                        if k < i {
                            let j = choose|j: int|
                                0 <= j < before.len() && before[j] == self.bindings@[k];
                            assert(kept@[j] == self.bindings@[k]);
                        } else {
                            assert(kept@[before.len() as int] == self.bindings@[k]);
                        }
                    }
                    assert forall|j: int| 0 <= j < kept@.len() implies exists|k: int|
                        0 <= k < i + 1 && self.bindings@[k] == #[trigger] kept@[j] by {
                        if j < before.len() {
                            let k = choose|k: int| 0 <= k < i && self.bindings@[k] == before[j];
                            assert(self.bindings@[k] == kept@[j]);
                        } else {
                            assert(self.bindings@[i as int] == kept@[j]);
                        }
                    }
                }
            }
            i += 1;
        }
        proof {
            let s = self.bindings@;
            let t = kept@;
            as_map_holds(s);
            as_map_holds(t);
            let want = swept(as_map(s), usable@, now);
            assert forall|k: BindingKey| as_map(t).contains_key(k) <==> want.contains_key(k) by {
                if as_map(t).contains_key(k) {
                    let j = choose|j: int| 0 <= j < t.len() && key_of(t[j]) == k;
                    let a = choose|a: int| 0 <= a < s.len() && s[a] == t[j];
                    assert(as_map(s)[key_of(s[a])] == bound_of(s[a]));
                }
                if want.contains_key(k) {
                    let a = choose|a: int| 0 <= a < s.len() && key_of(s[a]) == k;
                    assert(as_map(s)[key_of(s[a])] == bound_of(s[a]));
                    let j = choose|j: int| 0 <= j < t.len() && t[j] == s[a];
                    assert(key_of(t[j]) == k);
                }
            }
            assert forall|k: BindingKey| as_map(t).contains_key(k) implies as_map(t)[k] == want[k] by {
                let j = choose|j: int| 0 <= j < t.len() && key_of(t[j]) == k;
                let a = choose|a: int| 0 <= a < s.len() && s[a] == t[j];
                assert(as_map(s)[key_of(s[a])] == bound_of(s[a]));
                assert(as_map(t)[key_of(t[j])] == bound_of(t[j]));
            }
            assert(as_map(t) =~= want);
        }
        self.bindings = kept;
    }
}

/// Whether two optional model names are the same.
pub fn same_model(a: &Option<String>, b: &Option<String>) -> (same: bool)
    ensures
        same == (text_of(*a) == text_of(*b)),
{
    match (a, b) {
        (Some(x), Some(y)) => *x == *y,
        (None, None) => true,
        _ => false,
    }
}

/// Whether `id` occurs in `ids`.
pub fn holds_id(ids: &Vec<i64>, id: i64) -> (found: bool)
    ensures
        found == ids@.contains(id),
{
    let mut i: usize = 0;
    while i < ids.len()
        invariant
            i <= ids@.len(),
            forall|j: int| 0 <= j < i ==> ids@[j] != id,
        decreases ids@.len() - i,
    {
        if ids[i] == id {
            return true;
        }
        i += 1;
    }
    false
}

/// With distinct keys, the map has as many keys as the list has bindings.
pub proof fn count_keys(s: Seq<SessionBinding>)
    requires
        distinct_keys(s),
    ensures
        as_map(s).dom().finite(),
        as_map(s).dom().len() == s.len(),
    decreases s.len(),
{
    if s.len() > 0 {
        let rest = s.drop_last();
        count_keys(rest);
        as_map_holds(rest);
        if as_map(rest).contains_key(key_of(s.last())) {
            let i = choose|i: int| 0 <= i < rest.len() && key_of(rest[i]) == key_of(s.last());
            assert(key_of(s[i]) == key_of(s[s.len() - 1]));
        }
    }
}

} // verus!
