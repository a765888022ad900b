//! Single-process lock table with owner tokens and expiry.
use vstd::prelude::*;
use crate::error::{AppError, ErrorCode};

verus! {

/// A monotonic clock reading; carried through opaquely.
#[verifier::external_type_specification]
#[verifier::external_body]
pub struct ExInstant(std::time::Instant);

/// Reads `std::time::Instant::now`. Nothing is promised of the reading.
#[verifier::external_body]
fn instant_now() -> std::time::Instant {
    std::time::Instant::now()
}

/// Milliseconds elapsed since `origin`, by `Instant::elapsed`. The value
/// depends on the clock, so nothing about it is stated.
#[verifier::external_body]
fn elapsed_ms(origin: &std::time::Instant) -> u64 {
    origin.elapsed().as_millis() as u64
}

/// Milliseconds since the Unix epoch by `SystemTime::now`; depends on the clock.
#[verifier::external_body]
fn unix_time_ms() -> u64 {
    std::time::SystemTime::now().duration_since(std::time::UNIX_EPOCH).unwrap_or_default().as_millis() as u64
}

/// Whether `c` is a lowercase hexadecimal digit.
pub open spec fn is_lower_hex(c: char) -> bool {
    ('0' as u32 <= c as u32 && c as u32 <= '9' as u32) || ('a' as u32 <= c as u32 && c as u32 <= 'f' as u32)
}

/// The text of a random (version 4, RFC variant) UUID in the hyphenated
/// lowercase form: 36 characters, hyphens at positions 8, 13, 18 and 23,
/// lowercase hex digits elsewhere, the version digit `4` at position 14 and
/// one of `8`, `9`, `a`, `b` at position 19.
pub open spec fn uuid_v4_text(s: Seq<char>) -> bool {
    &&& s.len() == 36
    &&& forall|i: int| 0 <= i < 36 ==> if i == 8 || i == 13 || i == 18 || i == 23 {
        #[trigger] s[i] == '-'
    } else {
        is_lower_hex(s[i])
    }
    &&& s[14] == '4'
    &&& (s[19] == '8' || s[19] == '9' || s[19] == 'a' || s[19] == 'b')
}

/// A fresh random token from `uuid::Uuid::new_v4`, as text by its `Display`,
/// which the crate writes as the hyphenated lowercase form. Which UUID comes
/// out is chance; only its shape is stated.
#[verifier::external_body]
pub(crate) fn new_token() -> (t: String)
    ensures
        uuid_v4_text(t@),
{
    uuid::Uuid::new_v4().to_string()
}

/// Proof that a lock is held: the key and the token it was taken with.
#[derive(Debug, Clone)]
pub struct LockHandle {
    pub key: String,
    pub token: String,
    pub acquired_at_ms: u64,
}

/// One held lock.
struct LockEntry {
    key: String,
    token: String,
    expires_at_ms: u64,
}

/// The state of one key: its owner token and the instant (in ms) it expires.
pub struct Held {
    pub token: Seq<char>,
    pub expires_at: u64,
}

/// The instant at which a lock taken at `now` for `ttl_secs` seconds expires
/// (saturating at the largest representable instant).
pub open spec fn expiry(now: u64, ttl_secs: u64) -> u64 {
    let e = now + ttl_secs * 1000;
    if e > u64::MAX { u64::MAX } else { e as u64 }
}

/// Computes `expiry`.
pub fn expiry_ms(now: u64, ttl_secs: u64) -> (e: u64)
    ensures
        e == expiry(now, ttl_secs),
{
    if ttl_secs > u64::MAX / 1000 {
        assert(ttl_secs * 1000 > u64::MAX) by (nonlinear_arith)
            requires ttl_secs > u64::MAX / 1000;
        u64::MAX
    } else {
        assert(ttl_secs * 1000 <= u64::MAX) by (nonlinear_arith)
            requires ttl_secs <= u64::MAX / 1000;
        let d = ttl_secs * 1000;
        now.saturating_add(d)
    }
}

/// Whether `key` is held, unexpired, at `now`.
pub open spec fn is_live(m: Map<Seq<char>, Held>, key: Seq<char>, now: u64) -> bool {
    m.contains_key(key) && now < m[key].expires_at
}

/// The table after a try-acquire: the lock is granted unless a live holder exists.
pub open spec fn spec_try_acquire(m: Map<Seq<char>, Held>, key: Seq<char>, token: Seq<char>, ttl_secs: u64, now: u64) -> (bool, Map<Seq<char>, Held>) {
    if is_live(m, key, now) {
        (false, m)
    } else {
        (true, m.insert(key, Held { token, expires_at: expiry(now, ttl_secs) }))
    }
}

/// The table after a release: only the owner's token removes the entry.
pub open spec fn spec_release(m: Map<Seq<char>, Held>, key: Seq<char>, token: Seq<char>) -> (bool, Map<Seq<char>, Held>) {
    if m.contains_key(key) && m[key].token == token {
        (true, m.remove(key))
    } else {
        (false, m)
    }
}

/// The table after an extension: only the owner's token moves the expiry.
pub open spec fn spec_extend(m: Map<Seq<char>, Held>, key: Seq<char>, token: Seq<char>, ttl_secs: u64, now: u64) -> (bool, Map<Seq<char>, Held>) {
    if m.contains_key(key) && m[key].token == token {
        (true, m.insert(key, Held { token, expires_at: expiry(now, ttl_secs) }))
    } else {
        (false, m)
    }
}

/// What one round of a waiting acquire did: tried at `now` with `token`;
/// when refused, read the clock again (`later`) and gave up if the deadline
/// had come.
pub open spec fn poll_outcome(
    before: Map<Seq<char>, Held>, after: Map<Seq<char>, Held>, key: Seq<char>, token: Seq<char>, ttl_secs: u64, now: u64,
    later: u64, deadline_ms: u64, r: Result<Option<LockHandle>, AppError>,
) -> bool {
    &&& spec_try_acquire(before, key, token, ttl_secs, now).1 == after
    &&& match r {
        Ok(Some(h)) => spec_try_acquire(before, key, token, ttl_secs, now).0 && h.key@ == key && h.token@ == token,
        Ok(None) => !spec_try_acquire(before, key, token, ttl_secs, now).0 && later < deadline_ms,
        Err(e) => !spec_try_acquire(before, key, token, ttl_secs, now).0 && later >= deadline_ms
            && e.code == ErrorCode::LockAcquireFailed,
    }
}

/// In-memory lock table. Only coordinates within one process.
pub struct InMemoryLock {
    entries: Vec<LockEntry>,
    origin: std::time::Instant,
}

impl InMemoryLock {
    /// The keys are pairwise distinct.
    pub closed spec fn wf(&self) -> bool {
        forall|i: int, j: int|
            0 <= i < j < self.entries@.len() ==> self.entries@[i].key@ != self.entries@[j].key@
    }

    /// The held locks, by key.
    pub closed spec fn view(&self) -> Map<Seq<char>, Held> {
        Map::new(
            |k: Seq<char>| exists|i: int| 0 <= i < self.entries@.len() && self.entries@[i].key@ == k,
            |k: Seq<char>| {
                let i = choose|i: int| 0 <= i < self.entries@.len() && self.entries@[i].key@ == k;
                Held { token: self.entries@[i].token@, expires_at: self.entries@[i].expires_at_ms }
            },
        )
    }

    proof fn lemma_view_at(&self, i: int)
        requires
            self.wf(),
            0 <= i < self.entries@.len(),
        ensures
            self.view().contains_key(self.entries@[i].key@),
            self.view()[self.entries@[i].key@] == (Held {
                token: self.entries@[i].token@,
                expires_at: self.entries@[i].expires_at_ms,
            }),
    {
        let k = self.entries@[i].key@;
        assert(exists|j: int| 0 <= j < self.entries@.len() && self.entries@[j].key@ == k);
        let j = choose|j: int| 0 <= j < self.entries@.len() && self.entries@[j].key@ == k;
        assert(i == j);
    }

    /// An empty lock table.
    pub fn new() -> (l: InMemoryLock)
        ensures
            l.wf(),
            l.view() == Map::<Seq<char>, Held>::empty(),
    {
        let l = InMemoryLock { entries: Vec::new(), origin: instant_now() };
        assert(l.view() =~= Map::<Seq<char>, Held>::empty());
        l
    }

    /// The backend name.
    pub fn lock_name(&self) -> (s: &'static str)
        ensures
            s@ == "memory"@,
    {
        "memory"
    }

    /// Milliseconds on this table's monotonic clock.
    pub fn now_ms(&self) -> u64 {
        elapsed_ms(&self.origin)
    }

    fn find(&self, key: &String) -> (r: Option<usize>)
        requires
            self.wf(),
        ensures
            match r {
                Some(i) => i < self.entries@.len() && self.entries@[i as int].key@ == key@,
                None => !self.view().contains_key(key@),
            },
    {
        let mut i: usize = 0;
        while i < self.entries.len()
            invariant
                i <= self.entries@.len(),
                forall|j: int| 0 <= j < i ==> self.entries@[j].key@ != key@,
            decreases self.entries@.len() - i,
        {
            if self.entries[i].key == *key {
                return Some(i);
            }
            i = i + 1;
        }
        None
    }

    fn remove_at(&mut self, i: usize)
        requires
            old(self).wf(),
            i < old(self).entries@.len(),
        ensures
            final(self).wf(),
            final(self).view() == old(self).view().remove(old(self).entries@[i as int].key@),
            final(self).origin == old(self).origin,
    {
        let ghost k = self.entries@[i as int].key@;
        let ghost old_entries = self.entries@;
        proof { self.lemma_view_at(i as int); }
        self.entries.remove(i);
        assert(self.entries@ == old_entries.remove(i as int));
        assert forall|a: int, b: int| 0 <= a < b < self.entries@.len() implies
            self.entries@[a].key@ != self.entries@[b].key@ by {
            let a0 = if a < i { a } else { a + 1 };
            let b0 = if b < i { b } else { b + 1 };
            assert(self.entries@[a] == old_entries[a0]);
            assert(self.entries@[b] == old_entries[b0]);
        }
        assert forall|kk: Seq<char>| #[trigger] self.view().contains_key(kk) == old(self).view().remove(k).contains_key(kk) by {
            if self.view().contains_key(kk) {
                let a = choose|a: int| 0 <= a < self.entries@.len() && self.entries@[a].key@ == kk;
                let a0 = if a < i { a } else { a + 1 };
                assert(self.entries@[a] == old_entries[a0]);
                assert(old_entries[a0].key@ == kk);
                assert(a0 != i);
                assert(kk != k);
            }
            if old(self).view().remove(k).contains_key(kk) {
                let a0 = choose|a: int| 0 <= a < old_entries.len() && old_entries[a].key@ == kk;
                assert(a0 != i);
                let a = if a0 < i { a0 } else { a0 - 1 };
                assert(self.entries@[a] == old_entries[a0]);
            }
        }
        assert forall|kk: Seq<char>| #[trigger] self.view().contains_key(kk) implies
            self.view()[kk] == old(self).view().remove(k)[kk] by {
            let a = choose|a: int| 0 <= a < self.entries@.len() && self.entries@[a].key@ == kk;
            let a0 = if a < i { a } else { a + 1 };
            assert(self.entries@[a] == old_entries[a0]);
            self.lemma_view_at(a);
            old(self).lemma_view_at(a0);
        }
        assert(self.view() =~= old(self).view().remove(k));
    }

    fn set_at(&mut self, i: usize, token: String, expires_at_ms: u64)
        requires
            old(self).wf(),
            i < old(self).entries@.len(),
        ensures
            final(self).wf(),
            final(self).view() == old(self).view().insert(
                old(self).entries@[i as int].key@,
                Held { token: token@, expires_at: expires_at_ms },
            ),
            final(self).origin == old(self).origin,
    {
        let ghost k = self.entries@[i as int].key@;
        let ghost old_entries = self.entries@;
        let key = self.entries[i].key.clone();
        self.entries.set(i, LockEntry { key, token, expires_at_ms });
        assert forall|a: int, b: int| 0 <= a < b < self.entries@.len() implies
            self.entries@[a].key@ != self.entries@[b].key@ by {
            assert(self.entries@[a].key@ == old_entries[a].key@);
            assert(self.entries@[b].key@ == old_entries[b].key@);
        }
        let ghost newv = old(self).view().insert(k, Held { token: token@, expires_at: expires_at_ms });
        assert forall|kk: Seq<char>| #[trigger] self.view().contains_key(kk) == newv.contains_key(kk) by {
            if self.view().contains_key(kk) {
                let a = choose|a: int| 0 <= a < self.entries@.len() && self.entries@[a].key@ == kk;
                assert(old_entries[a].key@ == kk);
            }
            if newv.contains_key(kk) && kk != k {
                let a = choose|a: int| 0 <= a < old_entries.len() && old_entries[a].key@ == kk;
                assert(self.entries@[a].key@ == kk);
            }
            if kk == k {
                assert(self.entries@[i as int].key@ == kk);
            }
        }
        assert forall|kk: Seq<char>| #[trigger] self.view().contains_key(kk) implies
            self.view()[kk] == newv[kk] by {
            let a = choose|a: int| 0 <= a < self.entries@.len() && self.entries@[a].key@ == kk;
            self.lemma_view_at(a);
            if a != i {
                old(self).lemma_view_at(a);
            }
        }
        assert(self.view() =~= newv);
    }

    fn push_entry(&mut self, key: String, token: String, expires_at_ms: u64)
        requires
            old(self).wf(),
            !old(self).view().contains_key(key@),
        ensures
            final(self).wf(),
            final(self).view() == old(self).view().insert(key@, Held { token: token@, expires_at: expires_at_ms }),
            final(self).origin == old(self).origin,
    {
        let ghost k = key@;
        let ghost old_entries = self.entries@;
        let ghost newv = old(self).view().insert(k, Held { token: token@, expires_at: expires_at_ms });
        self.entries.push(LockEntry { key, token, expires_at_ms });
        let ghost n = old_entries.len() as int;
        assert forall|a: int, b: int| 0 <= a < b < self.entries@.len() implies
            self.entries@[a].key@ != self.entries@[b].key@ by {
            if b == n {
                assert(self.entries@[a] == old_entries[a]);
                assert(old(self).view().contains_key(old_entries[a].key@));
            }
        }
        assert forall|kk: Seq<char>| #[trigger] self.view().contains_key(kk) == newv.contains_key(kk) by {
            if self.view().contains_key(kk) && kk != k {
                let a = choose|a: int| 0 <= a < self.entries@.len() && self.entries@[a].key@ == kk;
                assert(a != n);
                assert(old_entries[a].key@ == kk);
            }
            if newv.contains_key(kk) && kk != k {
                let a = choose|a: int| 0 <= a < old_entries.len() && old_entries[a].key@ == kk;
                assert(self.entries@[a].key@ == kk);
            }
            if kk == k {
                assert(self.entries@[n].key@ == kk);
            }
        }
        assert forall|kk: Seq<char>| #[trigger] self.view().contains_key(kk) implies
            self.view()[kk] == newv[kk] by {
            let a = choose|a: int| 0 <= a < self.entries@.len() && self.entries@[a].key@ == kk;
            self.lemma_view_at(a);
            if a != n {
                old(self).lemma_view_at(a);
            }
        }
        assert(self.view() =~= newv);
    }

    /// Tries to take `key` at instant `now_ms` with the given owner token.
    /// An expired holder is dropped first; a live holder makes the call fail.
    pub fn try_acquire_at(&mut self, key: &str, ttl_secs: u64, now_ms: u64, token: String) -> (ok: bool)
        requires
            old(self).wf(),
        ensures
            final(self).wf(),
            (ok, final(self).view()) == spec_try_acquire(old(self).view(), key@, token@, ttl_secs, now_ms),
    {
        let key = key.to_string();
        let expires = expiry_ms(now_ms, ttl_secs);
        match self.find(&key) {
            Some(i) => {
                proof { self.lemma_view_at(i as int); }
                if now_ms < self.entries[i].expires_at_ms {
                    false
                } else {
                    self.set_at(i, token, expires);
                    true
                }
            },
            None => {
                self.push_entry(key, token, expires);
                true
            },
        }
    }

    /// Releases `key` if `token` owns it.
    pub fn release_owned(&mut self, key: &str, token: &str) -> (ok: bool)
        requires
            old(self).wf(),
        ensures
            final(self).wf(),
            (ok, final(self).view()) == spec_release(old(self).view(), key@, token@),
    {
        let key = key.to_string();
        let token = token.to_string();
        match self.find(&key) {
            Some(i) => {
                proof { self.lemma_view_at(i as int); }
                if self.entries[i].token == token {
                    self.remove_at(i);
                    true
                } else {
                    false
                }
            },
            None => false,
        }
    }

    /// Moves the expiry of `key` to `now_ms + ttl` if `token` owns it.
    pub fn extend_at(&mut self, key: &str, token: &str, ttl_secs: u64, now_ms: u64) -> (ok: bool)
        requires
            old(self).wf(),
        ensures
            final(self).wf(),
            (ok, final(self).view()) == spec_extend(old(self).view(), key@, token@, ttl_secs, now_ms),
    {
        let key = key.to_string();
        let token = token.to_string();
        let expires = expiry_ms(now_ms, ttl_secs);
        match self.find(&key) {
            Some(i) => {
                proof { self.lemma_view_at(i as int); }
                if self.entries[i].token == token {
                    self.set_at(i, token, expires);
                    true
                } else {
                    false
                }
            },
            None => false,
        }
    }

    /// Tries to take `key` now, with a fresh random token.
    pub fn try_acquire(&mut self, key: &str, ttl_secs: u64) -> (r: Option<LockHandle>)
        requires
            old(self).wf(),
        ensures
            final(self).wf(),
            exists|now: u64, token: Seq<char>| {
                &&& #[trigger] spec_try_acquire(old(self).view(), key@, token, ttl_secs, now)
                    == (r is Some, final(self).view())
                &&& r matches Some(h) ==> h.key@ == key@ && h.token@ == token
            },
    {
        let now = self.now_ms();
        let token = new_token();
        let tok = token.clone();
        if self.try_acquire_at(key, ttl_secs, now, token) {
            Some(LockHandle { key: key.to_string(), token: tok, acquired_at_ms: unix_time_ms() })
        } else {
            None
        }
    }

    /// Releases the lock a handle names, if the handle's token still owns it.
    pub fn release(&mut self, handle: &LockHandle) -> (ok: bool)
        requires
            old(self).wf(),
        ensures
            final(self).wf(),
            (ok, final(self).view()) == spec_release(old(self).view(), handle.key@, handle.token@),
    {
        self.release_owned(handle.key.as_str(), handle.token.as_str())
    }

    /// Extends the lock a handle names to `ttl_secs` from now, if the handle's token owns it.
    pub fn extend(&mut self, handle: &LockHandle, ttl_secs: u64) -> (ok: bool)
        requires
            old(self).wf(),
        ensures
            final(self).wf(),
            exists|now: u64| #[trigger] spec_extend(old(self).view(), handle.key@, handle.token@, ttl_secs, now)
                == (ok, final(self).view()),
    {
        let now = self.now_ms();
        self.extend_at(handle.key.as_str(), handle.token.as_str(), ttl_secs, now)
    }

    /// The instant (on this table's clock) `wait_timeout_secs` from now.
    pub fn deadline_after(&self, wait_timeout_secs: u64) -> (d: u64)
        ensures
            exists|now: u64| d == #[trigger] expiry(now, wait_timeout_secs),
    {
        let now = self.now_ms();
        expiry_ms(now, wait_timeout_secs)
    }

    /// One round of a waiting acquire: `Ok(Some)` when the lock was taken,
    /// `Ok(None)` when the caller should wait for a release and try again,
    /// and a `LockAcquireFailed` error once `deadline_ms` has passed.
    pub fn acquire_poll(&mut self, key: &str, ttl_secs: u64, deadline_ms: u64) -> (r: Result<Option<LockHandle>, AppError>)
        requires
            old(self).wf(),
        ensures
            final(self).wf(),
            exists|now: u64, later: u64, token: Seq<char>|
                #[trigger] poll_outcome(old(self).view(), final(self).view(), key@, token, ttl_secs, now, later, deadline_ms, r),
    {
        let now = self.now_ms();
        let token = new_token();
        let tok = token.clone();
        let ghost before = self.view();
        let ghost tv = token@;
        let ok = self.try_acquire_at(key, ttl_secs, now, token);
        assert(spec_try_acquire(before, key@, tv, ttl_secs, now) == (ok, self.view()));
        if ok {
            let h = LockHandle { key: key.to_string(), token: tok, acquired_at_ms: unix_time_ms() };
            let r = Ok(Some(h));
            assert(poll_outcome(before, self.view(), key@, tv, ttl_secs, now, now, deadline_ms, r));
            return r;
        }
        let later = self.now_ms();
        if later >= deadline_ms {
            let mut msg = String::from_str("timed out waiting for lock '");
            msg.append(key);
            msg.append("'");
            let r = Err(AppError::new(ErrorCode::LockAcquireFailed, msg));
            assert(poll_outcome(before, self.view(), key@, tv, ttl_secs, now, later, deadline_ms, r));
            return r;
        }
        let r = Ok(None);
        assert(poll_outcome(before, self.view(), key@, tv, ttl_secs, now, later, deadline_ms, r));
        r
    }
}

/// Law (mutual exclusion): once a key is granted at `now`, nobody else is
/// granted it before the lock expires.
pub proof fn lemma_granted_lock_excludes(
    m: Map<Seq<char>, Held>, key: Seq<char>, t1: Seq<char>, t2: Seq<char>, ttl_secs: u64, now: u64, later: u64, ttl2: u64,
)
    requires
        spec_try_acquire(m, key, t1, ttl_secs, now).0,
        later < expiry(now, ttl_secs),
    ensures
        !spec_try_acquire(spec_try_acquire(m, key, t1, ttl_secs, now).1, key, t2, ttl2, later).0,
        spec_try_acquire(spec_try_acquire(m, key, t1, ttl_secs, now).1, key, t2, ttl2, later).1
            == spec_try_acquire(m, key, t1, ttl_secs, now).1,
{
}

/// Law: a release with a token that does not own the key changes nothing.
pub proof fn lemma_foreign_release_is_noop(m: Map<Seq<char>, Held>, key: Seq<char>, token: Seq<char>)
    requires
        !(m.contains_key(key) && m[key].token == token),
    ensures
        spec_release(m, key, token) == (false, m),
{
}

/// Law: after the owner releases, the key can be taken again at once.
pub proof fn lemma_release_then_reacquire(
    m: Map<Seq<char>, Held>, key: Seq<char>, t1: Seq<char>, t2: Seq<char>, ttl_secs: u64, now: u64, ttl2: u64, later: u64,
)
    requires
        spec_try_acquire(m, key, t1, ttl_secs, now).0,
    ensures
        spec_release(spec_try_acquire(m, key, t1, ttl_secs, now).1, key, t1).0,
        spec_try_acquire(spec_release(spec_try_acquire(m, key, t1, ttl_secs, now).1, key, t1).1, key, t2, ttl2, later).0,
{
}

/// Law: a lock that has expired can be taken by anyone.
pub proof fn lemma_expired_reacquirable(m: Map<Seq<char>, Held>, key: Seq<char>, token: Seq<char>, ttl_secs: u64, now: u64)
    requires
        m.contains_key(key),
        now >= m[key].expires_at,
    ensures
        spec_try_acquire(m, key, token, ttl_secs, now).0,
{
}

/// Law: operations on one key leave every other key as it was.
pub proof fn lemma_keys_independent(
    m: Map<Seq<char>, Held>, key: Seq<char>, other: Seq<char>, token: Seq<char>, ttl_secs: u64, now: u64,
)
    requires
        key != other,
    ensures
        spec_try_acquire(m, key, token, ttl_secs, now).1.contains_key(other) == m.contains_key(other),
        m.contains_key(other) ==> spec_try_acquire(m, key, token, ttl_secs, now).1[other] == m[other],
        spec_release(m, key, token).1.contains_key(other) == m.contains_key(other),
        m.contains_key(other) ==> spec_release(m, key, token).1[other] == m[other],
        spec_extend(m, key, token, ttl_secs, now).1.contains_key(other) == m.contains_key(other),
        m.contains_key(other) ==> spec_extend(m, key, token, ttl_secs, now).1[other] == m[other],
{
}

/// Law: the owner's extension moves the expiry to `ttl` from the time of the call.
pub proof fn lemma_owner_extends(m: Map<Seq<char>, Held>, key: Seq<char>, ttl_secs: u64, now: u64)
    requires
        m.contains_key(key),
    ensures
        spec_extend(m, key, m[key].token, ttl_secs, now).0,
        spec_extend(m, key, m[key].token, ttl_secs, now).1[key].expires_at == expiry(now, ttl_secs),
{
}

} // verus!
