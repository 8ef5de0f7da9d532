//! The revocation store: three kinds of revocation facts, each with an
//! expiry of its own so the store never outgrows the lifetime of what
//! it revokes.
//!
//! Every fact carries the absolute time at which it lapses: a denylist
//! entry lapses when the token it revokes would have expired anyway, a
//! cutoff lapses after the longest token lifetime. Cutoffs only ever
//! move forward: storing a smaller cutoff than the one present changes
//! nothing.

use vstd::prelude::*;

verus! {

/// The shared store of revocation facts.
pub struct RevocationStore {
    /// Token ids revoked one by one, each with the entry's lapse time.
    pub denylist: Vec<(u128, u64)>,
    /// Per-user cutoffs: user id, cutoff timestamp, entry lapse time.
    pub user_cutoffs: Vec<(u128, u64, u64)>,
    /// The system-wide cutoff and its lapse time, if one was ever set.
    pub global_cutoff: Option<(u64, u64)>,
}

impl RevocationStore {
    /// Each token id and each user id appears at most once.
    pub open spec fn wf(self) -> bool {
        &&& forall|i: int, j: int|
            0 <= i < j < self.denylist@.len() ==> self.denylist@[i].0 != self.denylist@[j].0
        &&& forall|i: int, j: int|
            0 <= i < j < self.user_cutoffs@.len() ==> self.user_cutoffs@[i].0
                != self.user_cutoffs@[j].0
    }

    /// Whether token id `jti` is denylisted as of time `at`.
    pub open spec fn denylisted(self, jti: u128, at: u64) -> bool {
        exists|i: int|
            0 <= i < self.denylist@.len() && self.denylist@[i].0 == jti && at
                < self.denylist@[i].1
    }

    /// Whether some cutoff record exists for `user`, lapsed or not.
    pub open spec fn has_user_cutoff(self, user: u128) -> bool {
        exists|i: int| 0 <= i < self.user_cutoffs@.len() && self.user_cutoffs@[i].0 == user
    }

    /// The index of `user`'s cutoff record; meaningful only under `wf`
    /// and `has_user_cutoff`.
    pub open spec fn user_cutoff_idx(self, user: u128) -> int {
        choose|i: int| 0 <= i < self.user_cutoffs@.len() && self.user_cutoffs@[i].0 == user
    }

    /// The cutoff stored for `user`.
    pub open spec fn user_cutoff_val(self, user: u128) -> u64 {
        self.user_cutoffs@[self.user_cutoff_idx(user)].1
    }

    /// Whether `user`'s cutoff record exists and has not lapsed at `at`.
    pub open spec fn user_cutoff_live(self, user: u128, at: u64) -> bool {
        self.has_user_cutoff(user) && at < self.user_cutoffs@[self.user_cutoff_idx(user)].2
    }

    /// Whether the global cutoff exists and has not lapsed at `at`.
    pub open spec fn global_live(self, at: u64) -> bool {
        match self.global_cutoff {
            Some(p) => at < p.1,
            None => false,
        }
    }

    /// The global cutoff value.
    pub open spec fn global_val(self) -> u64 {
        match self.global_cutoff {
            Some(p) => p.0,
            None => 0,
        }
    }

    /// Under `wf`, any index holding `user` is the index `choose` picks.
    pub proof fn lemma_user_idx(self, user: u128, i: int)
        requires
            self.wf(),
            0 <= i < self.user_cutoffs@.len(),
            self.user_cutoffs@[i].0 == user,
        ensures
            self.has_user_cutoff(user),
            self.user_cutoff_idx(user) == i,
    {
        assert(self.has_user_cutoff(user));
        let j = self.user_cutoff_idx(user);
        if i < j {
            assert(self.user_cutoffs@[i].0 != self.user_cutoffs@[j].0);
        } else if j < i {
            assert(self.user_cutoffs@[j].0 != self.user_cutoffs@[i].0);
        }
    }

    /// An empty store: nothing is revoked.
    pub fn new() -> (s: Self)
        ensures
            s.wf(),
            s.denylist@.len() == 0,
            s.user_cutoffs@.len() == 0,
            s.global_cutoff is None,
    {
        RevocationStore { denylist: Vec::new(), user_cutoffs: Vec::new(), global_cutoff: None }
    }

    /// Whether token id `jti` is denylisted as of `now`.
    pub fn is_token_revoked(&self, jti: u128, now: u64) -> (r: bool)
        ensures
            r == self.denylisted(jti, now),
    {
        let n = self.denylist.len();
        let mut i: usize = 0;
        while i < n
            invariant
                i <= n == self.denylist@.len(),
                forall|j: int|
                    0 <= j < i ==> !(self.denylist@[j].0 == jti && now < self.denylist@[j].1),
            decreases n - i,
        {
            let e = self.denylist[i];
            if e.0 == jti && now < e.1 {
                return true;
            }
            i = i + 1;
        }
        false
    }

    /// Denylists `jti` until `expires_at`. If an entry for `jti` already
    /// reaches at least as far, nothing changes at all.
    pub fn mark_token_revoked(&mut self, jti: u128, expires_at: u64)
        requires
            old(self).wf(),
        ensures
            denylist_mark_effect(*old(self), *final(self), jti, expires_at),
    {
        let n = self.denylist.len();
        let mut i: usize = 0;
        while i < n
            invariant
                old(self).wf(),
                i <= n == self.denylist@.len(),
                *self == *old(self),
                forall|j: int| 0 <= j < i ==> self.denylist@[j].0 != jti,
            decreases n - i,
        {
            let e = self.denylist[i];
            if e.0 == jti {
                if e.1 >= expires_at {
                    proof {
                        assert forall|t: u128, at: u64|
                            self.denylisted(t, at) == (old(self).denylisted(t, at) || (t == jti
                                && at < expires_at)) by {
                            if t == jti && at < expires_at {
                                assert(self.denylist@[i as int].0 == jti && at
                                    < self.denylist@[i as int].1);
                                assert(self.denylisted(t, at));
                            }
                        }
                    }
                    return ;
                } else {
                    let ghost old_dl = self.denylist@;
                    self.denylist[i] = (jti, expires_at);
                    proof {
                        assert(self.denylist@ == old_dl.update(i as int, (jti, expires_at)));
                        assert(forall|k: int|
                            0 <= k < self.denylist@.len() ==> self.denylist@[k].0 == old_dl[k].0);
                        assert(self.wf());
                        assert forall|t: u128, at: u64|
                            self.denylisted(t, at) == (old(self).denylisted(t, at) || (t == jti
                                && at < expires_at)) by {
                            if self.denylisted(t, at) {
                                let k = choose|k: int|
                                    0 <= k < self.denylist@.len() && self.denylist@[k].0 == t
                                        && at < self.denylist@[k].1;
                                if k == i {
                                } else {
                                    assert(old_dl[k].0 == t && at < old_dl[k].1);
                                    assert(old(self).denylisted(t, at));
                                }
                            }
                            if old(self).denylisted(t, at) {
                                let k = choose|k: int|
                                    0 <= k < old_dl.len() && old_dl[k].0 == t && at < old_dl[k].1;
                                if k == i {
                                    assert(t == jti && at < expires_at);
                                    assert(self.denylist@[i as int].0 == t && at
                                        < self.denylist@[i as int].1);
                                    assert(self.denylisted(t, at));
                                } else {
                                    assert(self.denylist@[k].0 == t && at < self.denylist@[k].1);
                                    assert(self.denylisted(t, at));
                                }
                            }
                            if t == jti && at < expires_at {
                                assert(self.denylist@[i as int].0 == t && at
                                    < self.denylist@[i as int].1);
                                assert(self.denylisted(t, at));
                            }
                        }
                    }
                    return ;
                }
            }
            i = i + 1;
        }
        let ghost old_dl = self.denylist@;
        self.denylist.push((jti, expires_at));
        proof {
            assert(self.denylist@ == old_dl.push((jti, expires_at)));
            let last = old_dl.len() as int;
            assert(self.denylist@[last].0 == jti && self.denylist@[last].1 >= expires_at);
            assert forall|t: u128, at: u64|
                self.denylisted(t, at) == (old(self).denylisted(t, at) || (t == jti && at
                    < expires_at)) by {
                if self.denylisted(t, at) {
                    let k = choose|k: int|
                        0 <= k < self.denylist@.len() && self.denylist@[k].0 == t && at
                            < self.denylist@[k].1;
                    if k < last {
                        assert(old_dl[k].0 == t && at < old_dl[k].1);
                        assert(old(self).denylisted(t, at));
                    }
                }
                if old(self).denylisted(t, at) {
                    let k = choose|k: int|
                        0 <= k < old_dl.len() && old_dl[k].0 == t && at < old_dl[k].1;
                    assert(self.denylist@[k].0 == t && at < self.denylist@[k].1);
                    assert(self.denylisted(t, at));
                }
                if t == jti && at < expires_at {
                    assert(self.denylist@[last].0 == t && at < self.denylist@[last].1);
                    assert(self.denylisted(t, at));
                }
            }
        }
    }

    /// Raises `user`'s cutoff to `cutoff` if that is higher than what is
    /// stored; a lower or equal cutoff changes nothing at all.
    pub fn set_user_cutoff(&mut self, user: u128, cutoff: u64, entry_expires: u64)
        requires
            old(self).wf(),
        ensures
            user_cutoff_raise_effect(*old(self), *final(self), user, cutoff, entry_expires),
    {
        let n = self.user_cutoffs.len();
        let mut i: usize = 0;
        while i < n
            invariant
                old(self).wf(),
                i <= n == self.user_cutoffs@.len(),
                *self == *old(self),
                forall|j: int| 0 <= j < i ==> self.user_cutoffs@[j].0 != user,
            decreases n - i,
        {
            let e = self.user_cutoffs[i];
            if e.0 == user {
                proof {
                    old(self).lemma_user_idx(user, i as int);
                }
                if e.1 >= cutoff {
                    return ;
                } else {
                    let ghost old_uc = self.user_cutoffs@;
                    self.user_cutoffs[i] = (user, cutoff, entry_expires);
                    proof {
                        assert(self.user_cutoffs@ == old_uc.update(
                            i as int,
                            (user, cutoff, entry_expires),
                        ));
                        assert(forall|k: int|
                            0 <= k < self.user_cutoffs@.len() ==> self.user_cutoffs@[k].0
                                == old_uc[k].0);
                        assert(self.wf());
                        self.lemma_user_idx(user, i as int);
                        assert forall|u2: u128|
                            u2 != user implies self.has_user_cutoff(u2) == old(self).has_user_cutoff(u2) by {
                            if self.has_user_cutoff(u2) {
                                let k = self.user_cutoff_idx(u2);
                                assert(old_uc[k].0 == u2);
                                assert(old(self).has_user_cutoff(u2));
                            }
                            if old(self).has_user_cutoff(u2) {
                                let k = old(self).user_cutoff_idx(u2);
                                assert(self.user_cutoffs@[k].0 == u2);
                                assert(self.has_user_cutoff(u2));
                            }
                        }
                        assert forall|u2: u128|
                            u2 != user && old(self).has_user_cutoff(u2) implies self
                            .user_cutoff_val(u2) == old(self).user_cutoff_val(u2)
                            && self.user_cutoffs@[self.user_cutoff_idx(u2)].2 == old(self).user_cutoffs@[old(self).user_cutoff_idx(u2)].2 by {
                            let k = old(self).user_cutoff_idx(u2);
                            assert(old_uc[k].0 == u2);
                            self.lemma_user_idx(u2, k);
                        }
                    }
                    return ;
                }
            }
            i = i + 1;
        }
        let ghost old_uc = self.user_cutoffs@;
        self.user_cutoffs.push((user, cutoff, entry_expires));
        proof {
            assert(self.user_cutoffs@ == old_uc.push((user, cutoff, entry_expires)));
            let last = old_uc.len() as int;
            assert(!old(self).has_user_cutoff(user));
            self.lemma_user_idx(user, last);
            assert forall|u2: u128|
                u2 != user implies self.has_user_cutoff(u2) == old(self).has_user_cutoff(u2) by {
                if self.has_user_cutoff(u2) {
                    let k = self.user_cutoff_idx(u2);
                    assert(k != last);
                    assert(old_uc[k].0 == u2);
                    assert(old(self).has_user_cutoff(u2));
                }
                if old(self).has_user_cutoff(u2) {
                    let k = old(self).user_cutoff_idx(u2);
                    assert(self.user_cutoffs@[k].0 == u2);
                    assert(self.has_user_cutoff(u2));
                }
            }
            assert forall|u2: u128|
                u2 != user && old(self).has_user_cutoff(u2) implies self.user_cutoff_val(u2)
                == old(self).user_cutoff_val(u2) && self.user_cutoffs@[self.user_cutoff_idx(
                u2,
            )].2 == old(self).user_cutoffs@[old(self).user_cutoff_idx(u2)].2 by {
                let k = old(self).user_cutoff_idx(u2);
                assert(old_uc[k].0 == u2);
                self.lemma_user_idx(u2, k);
            }
        }
    }

    /// The cutoff stored for `user`, if its record has not lapsed.
    pub fn get_user_cutoff(&self, user: u128, now: u64) -> (r: Option<u64>)
        requires
            self.wf(),
        ensures
            r == if self.user_cutoff_live(user, now) {
                Some(self.user_cutoff_val(user))
            } else {
                None
            },
    {
        let n = self.user_cutoffs.len();
        let mut i: usize = 0;
        while i < n
            invariant
                self.wf(),
                i <= n == self.user_cutoffs@.len(),
                forall|j: int| 0 <= j < i ==> self.user_cutoffs@[j].0 != user,
            decreases n - i,
        {
            let e = self.user_cutoffs[i];
            if e.0 == user {
                proof {
                    self.lemma_user_idx(user, i as int);
                }
                if now < e.2 {
                    return Some(e.1);
                } else {
                    return None;
                }
            }
            i = i + 1;
        }
        None
    }

    /// Raises the global cutoff to `cutoff` if that is higher than what
    /// is stored; a lower or equal cutoff changes nothing at all.
    pub fn set_global_cutoff(&mut self, cutoff: u64, entry_expires: u64)
        requires
            old(self).wf(),
        ensures
            global_raise_effect(*old(self), *final(self), cutoff, entry_expires),
    {
        let keep = match self.global_cutoff {
            Some(p) => p.0 >= cutoff,
            None => false,
        };
        if !keep {
            self.global_cutoff = Some((cutoff, entry_expires));
        }
    }

    /// Evicts every record whose lapse time has passed and says how
    /// many went. Purely compaction: no check made at or after `now`
    /// can tell the difference.
    #[verifier::rlimit(50)]
    pub fn cleanup(&mut self, now: u64) -> (n: u64)
        requires
            old(self).wf(),
        ensures
            cleanup_effect(*old(self), *final(self), now, n),
    {
        let dn = self.denylist.len();
        let mut kept_d: Vec<(u128, u64)> = Vec::new();
        let mut i: usize = 0;
        while i < dn
            invariant
                old(self).wf(),
                *self == *old(self),
                i <= dn == old(self).denylist@.len(),
                kept_d@.len() <= i,
                forall|k: int| 0 <= k < kept_d@.len() ==> now < kept_d@[k].1,
                forall|k: int|
                    0 <= k < kept_d@.len() ==> exists|j: int|
                        0 <= j < i && old(self).denylist@[j] == #[trigger] kept_d@[k],
                forall|j: int|
                    0 <= j < i && now < (#[trigger] old(self).denylist@[j]).1 ==> exists|k: int|
                        0 <= k < kept_d@.len() && #[trigger] kept_d@[k] == old(self).denylist@[j],
                forall|k1: int, k2: int|
                    0 <= k1 < k2 < kept_d@.len() ==> kept_d@[k1].0 != kept_d@[k2].0,
            decreases dn - i,
        {
            let e = self.denylist[i];
            let ghost pre = kept_d@;
            if now < e.1 {
                proof {
                    assert forall|k: int| 0 <= k < kept_d@.len() implies kept_d@[k].0 != e.0 by {
                        let j = choose|j: int|
                            0 <= j < i && old(self).denylist@[j] == kept_d@[k];
                        assert(old(self).denylist@[j].0 != old(self).denylist@[i as int].0);
                    }
                }
                kept_d.push(e);
            }
            proof {
                assert forall|j: int|
                    0 <= j < i + 1 && now < (old(self).denylist@[j]).1 implies exists|k: int|
                        0 <= k < kept_d@.len() && #[trigger] kept_d@[k] == old(self).denylist@[j]
                    by {
                    if j == i {
                        assert(kept_d@[kept_d@.len() - 1] == old(self).denylist@[j]);
                    } else {
                        let k = choose|k: int|
                            0 <= k < pre.len() && pre[k] == old(self).denylist@[j];
                        assert(kept_d@[k] == old(self).denylist@[j]);
                    }
                }
            }
            i = i + 1;
        }
        let un = self.user_cutoffs.len();
        let mut kept_u: Vec<(u128, u64, u64)> = Vec::new();
        let mut m: usize = 0;
        while m < un
            invariant
                old(self).wf(),
                *self == *old(self),
                m <= un == old(self).user_cutoffs@.len(),
                kept_u@.len() <= m,
                forall|k: int| 0 <= k < kept_u@.len() ==> now < kept_u@[k].2,
                forall|k: int|
                    0 <= k < kept_u@.len() ==> exists|j: int|
                        0 <= j < m && old(self).user_cutoffs@[j] == #[trigger] kept_u@[k],
                forall|j: int|
                    0 <= j < m && now < (#[trigger] old(self).user_cutoffs@[j]).2 ==> exists|k: int|
                        0 <= k < kept_u@.len() && #[trigger] kept_u@[k] == old(self).user_cutoffs@[j],
                forall|k1: int, k2: int|
                    0 <= k1 < k2 < kept_u@.len() ==> kept_u@[k1].0 != kept_u@[k2].0,
            decreases un - m,
        {
            let e = self.user_cutoffs[m];
            let ghost pre = kept_u@;
            if now < e.2 {
                proof {
                    assert forall|k: int| 0 <= k < kept_u@.len() implies kept_u@[k].0 != e.0 by {
                        let j = choose|j: int|
                            0 <= j < m && old(self).user_cutoffs@[j] == kept_u@[k];
                        assert(old(self).user_cutoffs@[j].0 != old(self).user_cutoffs@[m as int].0);
                    }
                }
                kept_u.push(e);
            }
            proof {
                assert forall|j: int|
                    0 <= j < m + 1 && now < (old(self).user_cutoffs@[j]).2 implies exists|k: int|
                        0 <= k < kept_u@.len() && #[trigger] kept_u@[k] == old(self).user_cutoffs@[j]
                    by {
                    if j == m {
                        assert(kept_u@[kept_u@.len() - 1] == old(self).user_cutoffs@[j]);
                    } else {
                        let k = choose|k: int|
                            0 <= k < pre.len() && pre[k] == old(self).user_cutoffs@[j];
                        assert(kept_u@[k] == old(self).user_cutoffs@[j]);
                    }
                }
            }
            m = m + 1;
        }
        let rd: usize = dn - kept_d.len();
        let ru: usize = un - kept_u.len();
        let ghost kd = kept_d@;
        let ghost ku = kept_u@;
        self.denylist = kept_d;
        self.user_cutoffs = kept_u;
        let mut rg: u64 = 0;
        match self.global_cutoff {
            Some(p) => {
                if now >= p.1 {
                    self.global_cutoff = None;
                    rg = 1;
                }
            },
            None => {},
        }
        proof {
            assert(self.denylist@ == kd);
            assert(self.user_cutoffs@ == ku);
            assert forall|t: u128, at: u64|
                now <= at implies self.denylisted(t, at) == old(self).denylisted(t, at) by {
                if self.denylisted(t, at) {
                    let k = choose|k: int| 0 <= k < kd.len() && kd[k].0 == t && at < kd[k].1;
                    let j = choose|j: int| 0 <= j < dn && old(self).denylist@[j] == kd[k];
                    assert(old(self).denylist@[j].0 == t && at < old(self).denylist@[j].1);
                    assert(old(self).denylisted(t, at));
                }
                if old(self).denylisted(t, at) {
                    let j = choose|j: int|
                        0 <= j < dn && old(self).denylist@[j].0 == t && at < old(self).denylist@[j].1;
                    assert(now < old(self).denylist@[j].1);
                    let k = choose|k: int| 0 <= k < kd.len() && kd[k] == old(self).denylist@[j];
                    assert(kd[k].0 == t && at < kd[k].1);
                    assert(self.denylisted(t, at));
                }
            }
            assert forall|u: u128|
                self.has_user_cutoff(u) implies old(self).has_user_cutoff(u)
                && self.user_cutoff_val(u) == old(self).user_cutoff_val(u) by {
                let k = self.user_cutoff_idx(u);
                assert(ku[k].0 == u);
                let j = choose|j: int| 0 <= j < un && old(self).user_cutoffs@[j] == ku[k];
                old(self).lemma_user_idx(u, j);
                self.lemma_user_idx(u, k);
            }
            assert forall|u: u128, at: u64|
                now <= at implies self.user_cutoff_live(u, at) == old(self).user_cutoff_live(
                    u,
                    at,
                ) by {
                if self.user_cutoff_live(u, at) {
                    let k = self.user_cutoff_idx(u);
                    assert(ku[k].0 == u);
                    let j = choose|j: int| 0 <= j < un && old(self).user_cutoffs@[j] == ku[k];
                    old(self).lemma_user_idx(u, j);
                    self.lemma_user_idx(u, k);
                }
                if old(self).user_cutoff_live(u, at) {
                    let j = old(self).user_cutoff_idx(u);
                    assert(old(self).user_cutoffs@[j].0 == u);
                    assert(now < old(self).user_cutoffs@[j].2);
                    let k = choose|k: int|
                        0 <= k < ku.len() && ku[k] == old(self).user_cutoffs@[j];
                    self.lemma_user_idx(u, k);
                    assert(self.user_cutoff_live(u, at));
                }
            }
        }
        let sum1: u64 = match (rd as u64).checked_add(ru as u64) {
            Some(s) => s,
            None => u64::MAX,
        };
        let total: u64 = match sum1.checked_add(rg) {
            Some(s) => s,
            None => u64::MAX,
        };
        total
    }

    /// The global cutoff, if its record has not lapsed.
    pub fn get_global_cutoff(&self, now: u64) -> (r: Option<u64>)
        ensures
            r == if self.global_live(now) {
                Some(self.global_val())
            } else {
                None
            },
    {
        match self.global_cutoff {
            Some(p) => {
                if now < p.1 {
                    Some(p.0)
                } else {
                    None
                }
            },
            None => None,
        }
    }
}

/// What `mark_token_revoked(jti, expires_at)` does to a store: `jti` is
/// denylisted until `expires_at`, everything else stays, and a call
/// whose entry is already there unchanged is a complete no-op.
pub open spec fn denylist_mark_effect(
    pre: RevocationStore,
    post: RevocationStore,
    jti: u128,
    expires_at: u64,
) -> bool {
    &&& post.wf()
    &&& post.user_cutoffs == pre.user_cutoffs
    &&& post.global_cutoff == pre.global_cutoff
    &&& forall|t: u128, at: u64|
        post.denylisted(t, at) == (pre.denylisted(t, at) || (t == jti && at < expires_at))
    &&& exists|i: int|
        0 <= i < post.denylist@.len() && post.denylist@[i].0 == jti && post.denylist@[i].1
            >= expires_at
    &&& (exists|i: int|
        0 <= i < pre.denylist@.len() && pre.denylist@[i].0 == jti && pre.denylist@[i].1
            >= expires_at) ==> post == pre
}

/// What `set_user_cutoff(user, cutoff, entry_expires)` does to a store:
/// the cutoff only ever rises, and a lower or equal cutoff is a no-op.
pub open spec fn user_cutoff_raise_effect(
    pre: RevocationStore,
    post: RevocationStore,
    user: u128,
    cutoff: u64,
    entry_expires: u64,
) -> bool {
    &&& post.wf()
    &&& post.denylist == pre.denylist
    &&& post.global_cutoff == pre.global_cutoff
    &&& post.has_user_cutoff(user)
    &&& post.user_cutoff_val(user) == if pre.has_user_cutoff(user) && pre.user_cutoff_val(user)
        >= cutoff {
        pre.user_cutoff_val(user)
    } else {
        cutoff
    }
    &&& !(pre.has_user_cutoff(user) && pre.user_cutoff_val(user) >= cutoff)
        ==> post.user_cutoffs@[post.user_cutoff_idx(user)].2 == entry_expires
    &&& (pre.has_user_cutoff(user) && pre.user_cutoff_val(user) >= cutoff) ==> post == pre
    &&& forall|u2: u128| u2 != user ==> post.has_user_cutoff(u2) == pre.has_user_cutoff(u2)
    &&& forall|u2: u128|
        u2 != user && pre.has_user_cutoff(u2) ==> (post.user_cutoff_val(u2)
            == pre.user_cutoff_val(u2) && (forall|at: u64|
            post.user_cutoff_live(u2, at) == pre.user_cutoff_live(u2, at)))
}

/// What `set_global_cutoff(cutoff, entry_expires)` does to a store.
pub open spec fn global_raise_effect(
    pre: RevocationStore,
    post: RevocationStore,
    cutoff: u64,
    entry_expires: u64,
) -> bool {
    &&& post.wf()
    &&& post.denylist == pre.denylist
    &&& post.user_cutoffs == pre.user_cutoffs
    &&& post.global_cutoff is Some
    &&& post.global_val() == if pre.global_cutoff is Some && pre.global_val() >= cutoff {
        pre.global_val()
    } else {
        cutoff
    }
    &&& !(pre.global_cutoff is Some && pre.global_val() >= cutoff) ==> post.global_cutoff
        == Some((cutoff, entry_expires))
    &&& (pre.global_cutoff is Some && pre.global_val() >= cutoff) ==> post == pre
}

/// What `cleanup(now)` does to a store: it evicts exactly the lapsed
/// records, which no check at or after `now` could still see, and
/// reports how many went.
pub open spec fn cleanup_effect(
    pre: RevocationStore,
    post: RevocationStore,
    now: u64,
    n: u64,
) -> bool {
    &&& post.wf()
    &&& forall|t: u128, at: u64| now <= at ==> post.denylisted(t, at) == pre.denylisted(t, at)
    &&& forall|i: int| 0 <= i < post.denylist@.len() ==> now < post.denylist@[i].1
    &&& forall|u: u128, at: u64|
        now <= at ==> post.user_cutoff_live(u, at) == pre.user_cutoff_live(u, at)
    &&& forall|u: u128|
        post.has_user_cutoff(u) ==> pre.has_user_cutoff(u) && post.user_cutoff_val(u)
            == pre.user_cutoff_val(u)
    &&& post.global_cutoff == if pre.global_live(now) {
        pre.global_cutoff
    } else {
        None::<(u64, u64)>
    }
    &&& n as int == vstd::math::min(
        pre.denylist@.len() - post.denylist@.len() + pre.user_cutoffs@.len()
            - post.user_cutoffs@.len() + (
        if pre.global_cutoff is Some && !pre.global_live(now) {
            1int
        } else {
            0int
        }),
        u64::MAX as int,
    )
}

/// Whether claims with the given subject, token id and issue time pass
/// all three revocation checks against `st` as of time `at`: the token
/// id is not denylisted, and the issue time is after any live user or
/// global cutoff.
pub open spec fn revocation_clear(
    st: RevocationStore,
    subject: u128,
    jti: u128,
    iat: u64,
    at: u64,
) -> bool {
    &&& !st.denylisted(jti, at)
    &&& (st.user_cutoff_live(subject, at) ==> iat > st.user_cutoff_val(subject))
    &&& (st.global_live(at) ==> iat > st.global_val())
}

/// Runs the three revocation checks in order: token denylist first,
/// then the user cutoff, then the global cutoff.
pub fn check_revocation(
    st: &RevocationStore,
    subject: u128,
    jti: u128,
    iat: u64,
    now: u64,
) -> (r: bool)
    requires
        st.wf(),
    ensures
        r == revocation_clear(*st, subject, jti, iat, now),
{
    if st.is_token_revoked(jti, now) {
        return false;
    }
    match st.get_user_cutoff(subject, now) {
        Some(c) => {
            if iat <= c {
                return false;
            }
        },
        None => {},
    }
    match st.get_global_cutoff(now) {
        Some(c) => {
            if iat <= c {
                return false;
            }
        },
        None => {},
    }
    true
}

/// Cutoffs never regress: raising a user's cutoff to `t1` and then
/// asking for an earlier (or equal) `t0` leaves the store exactly as it
/// was after the first raise, with the cutoff still at least `t1`.
pub proof fn lemma_cutoff_monotonic(
    s0: RevocationStore,
    s1: RevocationStore,
    s2: RevocationStore,
    user: u128,
    t1: u64,
    e1: u64,
    t0: u64,
    e0: u64,
)
    requires
        user_cutoff_raise_effect(s0, s1, user, t1, e1),
        user_cutoff_raise_effect(s1, s2, user, t0, e0),
        t0 <= t1,
    ensures
        s2 == s1,
        s1.user_cutoff_val(user) >= t1,
{
}

} // verus!
