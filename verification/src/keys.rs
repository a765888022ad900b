//! Versioned key store with rotation and bounded history.
use vstd::prelude::*;
use crate::error::{AppError, ErrorCode};
use crate::strmap::StrMap;

verus! {

/// Settings of the rotating key provider.
#[derive(Debug, Clone, Copy)]
pub struct RotatingKeyConfig {
    pub enabled: bool,
    pub rotation_interval_secs: u64,
    pub max_key_versions: u32,
}

/// Description of one stored version, as listed.
#[derive(Debug, Clone, Copy, PartialEq, Eq, Structural)]
pub struct KeyVersion {
    pub version: u32,
    pub created_at: u64,
    pub is_active: bool,
}

/// One stored key version.
pub struct KeyEntry {
    pub version: u32,
    pub key: Seq<u8>,
    pub created_at: u64,
}

/// All versions of one named key and the active version number.
pub struct KeyRing {
    pub versions: Seq<KeyEntry>,
    pub active: u32,
}

struct VersionedKey {
    version: u32,
    key: Vec<u8>,
    created_at: u64,
}

struct KeyStore {
    versions: Vec<VersionedKey>,
    active_version: u32,
}

spec fn entry_view(v: VersionedKey) -> KeyEntry {
    KeyEntry { version: v.version, key: v.key@, created_at: v.created_at }
}

spec fn store_view(s: KeyStore) -> KeyRing {
    KeyRing { versions: s.versions@.map_values(|v: VersionedKey| entry_view(v)), active: s.active_version }
}

/// A fresh ring with no versions.
pub open spec fn empty_ring() -> KeyRing {
    KeyRing { versions: Seq::empty(), active: 0 }
}

/// The ring of `name`, or an empty one.
pub open spec fn ring_of(m: Map<Seq<char>, KeyRing>, name: Seq<char>) -> KeyRing {
    if m.contains_key(name) { m[name] } else { empty_ring() }
}

/// The largest version number in a sequence (0 for none).
pub open spec fn max_version(s: Seq<KeyEntry>) -> u32
    decreases s.len(),
{
    if s.len() == 0 {
        0
    } else {
        let m = max_version(s.drop_last());
        if s.last().version > m { s.last().version } else { m }
    }
}

/// The key of the first entry with version `ver`.
pub open spec fn lookup(s: Seq<KeyEntry>, ver: u32) -> Option<Seq<u8>> {
    if exists|i: int| 0 <= i < s.len() && s[i].version == ver {
        let i = choose|i: int|
            0 <= i < s.len() && s[i].version == ver && forall|j: int| 0 <= j < i ==> s[j].version != ver;
        Some(s[i].key)
    } else {
        None
    }
}

/// The store after seeding `key` under `name`: it becomes version `len + 1` and active.
pub open spec fn spec_seed(m: Map<Seq<char>, KeyRing>, name: Seq<char>, key: Seq<u8>, now: u64) -> Map<Seq<char>, KeyRing> {
    let ring = ring_of(m, name);
    let v = (ring.versions.len() + 1) as u32;
    m.insert(name, KeyRing { versions: ring.versions.push(KeyEntry { version: v, key, created_at: now }), active: v })
}

/// The key returned for `name` at `version` (the active one when absent).
pub open spec fn spec_get(m: Map<Seq<char>, KeyRing>, name: Seq<char>, version: Option<u32>) -> Option<Seq<u8>> {
    if !m.contains_key(name) {
        None
    } else {
        let ver = match version { Some(v) => v, None => m[name].active };
        lookup(m[name].versions, ver)
    }
}

/// The versions kept after appending one to `s` with a limit of `max`: the newest `max`.
pub open spec fn trim(s: Seq<KeyEntry>, max: nat) -> Seq<KeyEntry> {
    if s.len() > max { s.subrange(s.len() - max, s.len() as int) } else { s }
}

/// The ring after a rotation to `new_key`: a version one above the largest becomes active.
pub open spec fn spec_rotate_ring(ring: KeyRing, new_key: Seq<u8>, now: u64, max: nat) -> KeyRing {
    let v = (max_version(ring.versions) + 1) as u32;
    KeyRing {
        versions: trim(ring.versions.push(KeyEntry { version: v, key: new_key, created_at: now }), max),
        active: v,
    }
}

/// The listing of a ring.
pub open spec fn spec_list(ring: KeyRing) -> Seq<KeyVersion> {
    ring.versions.map_values(
        |e: KeyEntry| KeyVersion { version: e.version, created_at: e.created_at, is_active: e.version == ring.active },
    )
}

/// Seconds since the Unix epoch by `SystemTime::now`; depends on the clock.
#[verifier::external_body]
fn now_secs() -> u64 {
    std::time::SystemTime::now().duration_since(std::time::UNIX_EPOCH).unwrap_or_default().as_secs()
}

/// 32 random bytes filled by `rand::RngCore::fill_bytes` on `rand::thread_rng()`.
/// Only the length is promised.
#[verifier::external_body]
fn random_key32() -> (k: Vec<u8>)
    ensures
        k@.len() == 32,
{
    let mut k = vec![0u8; 32];
    rand::RngCore::fill_bytes(&mut rand::thread_rng(), &mut k);
    k
}

fn clone_bytes(v: &Vec<u8>) -> (c: Vec<u8>)
    ensures
        c@ == v@,
{
    let mut c: Vec<u8> = Vec::with_capacity(v.len());
    let mut i: usize = 0;
    while i < v.len()
        invariant
            i <= v@.len(),
            c@ == v@.subrange(0, i as int),
        decreases v@.len() - i,
    {
        c.push(v[i]);
        assert(v@.subrange(0, i as int + 1) == v@.subrange(0, i as int).push(v@[i as int]));
        i = i + 1;
    }
    assert(v@.subrange(0, v@.len() as int) == v@);
    c
}

fn not_found(name: &str) -> (e: AppError)
    ensures
        e.code == ErrorCode::CryptoKeyNotFound,
{
    let mut msg = String::from_str("key '");
    msg.append(name);
    msg.append("' not found");
    AppError::new(ErrorCode::CryptoKeyNotFound, msg)
}

/// Key provider that keeps every version of each named key and rotates on demand.
pub struct RotatingKeyProvider {
    keys: StrMap<KeyStore>,
    config: RotatingKeyConfig,
}

impl RotatingKeyProvider {
    pub closed spec fn wf(&self) -> bool {
        self.keys.wf()
    }

    /// The stored keys, by name.
    pub closed spec fn view(&self) -> Map<Seq<char>, KeyRing> {
        self.keys.view().map_values(|s: KeyStore| store_view(s))
    }

    /// The configured limit of kept versions.
    pub closed spec fn max_versions(&self) -> nat {
        self.config.max_key_versions as nat
    }

    /// An empty provider.
    pub fn new(config: &RotatingKeyConfig) -> (p: RotatingKeyProvider)
        ensures
            p.wf(),
            p.view() == Map::<Seq<char>, KeyRing>::empty(),
            p.max_versions() == config.max_key_versions,
    {
        let p = RotatingKeyProvider { keys: StrMap::new(), config: *config };
        assert(p.view() =~= Map::<Seq<char>, KeyRing>::empty());
        p
    }

    proof fn lemma_view_insert(&self, other: &Self, name: Seq<char>, s: KeyStore)
        requires
            other.keys.view() == self.keys.view().insert(name, s),
        ensures
            other.view() == self.view().insert(name, store_view(s)),
    {
        assert(other.view() =~= self.view().insert(name, store_view(s)));
    }

    /// Adds `key` as a new version of `name` created at `now`, and makes it active.
    pub fn seed_key_at(&mut self, name: &str, key: Vec<u8>, now: u64)
        requires
            old(self).wf(),
            ring_of(old(self).view(), name@).versions.len() + 1 < u32::MAX,
        ensures
            final(self).wf(),
            final(self).view() == spec_seed(old(self).view(), name@, key@, now),
            final(self).max_versions() == old(self).max_versions(),
    {
        let ghost before = self.view();
        match self.keys.find(name) {
            Some(i) => {
                let empty = KeyStore { versions: Vec::new(), active_version: 0 };
                let ghost old_keys = self.keys;
                let mut store = self.keys.replace_at(i, empty);
                proof {
                    assert(before.contains_key(name@));
                    assert(store_view(store) == before[name@]);
                }
                let version = store.versions.len() as u32 + 1;
                let ghost prev_versions = store_view(store).versions;
                store.versions.push(VersionedKey { version, key, created_at: now });
                store.active_version = version;
                assert(store_view(store).versions =~= prev_versions.push(KeyEntry { version, key: key@, created_at: now }));
                let ghost mid = self.keys;
                let _ = self.keys.replace_at(i, store);
                proof {
                    assert(self.keys.view() == old_keys.view().insert(name@, store)) by {
                        assert(self.keys.view() =~= old_keys.view().insert(name@, store));
                    }
                    old(self).lemma_view_insert(self, name@, store);
                }
            },
            None => {
                let mut versions: Vec<VersionedKey> = Vec::new();
                versions.push(VersionedKey { version: 1, key, created_at: now });
                let store = KeyStore { versions, active_version: 1 };
                assert(store_view(store).versions =~= Seq::<KeyEntry>::empty().push(KeyEntry { version: 1, key: key@, created_at: now }));
                self.keys.push_new(name.to_string(), store);
                proof { old(self).lemma_view_insert(self, name@, store); }
            },
        }
    }

    /// Adds `key` as a new active version of `name`, stamped with the current time.
    pub fn seed_key(&mut self, name: &str, key: Vec<u8>)
        requires
            old(self).wf(),
            ring_of(old(self).view(), name@).versions.len() + 1 < u32::MAX,
        ensures
            final(self).wf(),
            exists|now: u64| final(self).view() == #[trigger] spec_seed(old(self).view(), name@, key@, now),
            final(self).max_versions() == old(self).max_versions(),
    {
        let now = now_secs();
        self.seed_key_at(name, key, now);
    }

    fn find_version(versions: &Vec<VersionedKey>, ver: u32) -> (r: Option<usize>)
        ensures
            match r {
                Some(i) => i < versions@.len() && lookup(versions@.map_values(|v: VersionedKey| entry_view(v)), ver)
                    == Some(versions@[i as int].key@),
                None => lookup(versions@.map_values(|v: VersionedKey| entry_view(v)), ver) is None,
            },
    {
        let ghost s = versions@.map_values(|v: VersionedKey| entry_view(v));
        let mut i: usize = 0;
        while i < versions.len()
            invariant
                i <= versions@.len(),
                s == versions@.map_values(|v: VersionedKey| entry_view(v)),
                forall|j: int| 0 <= j < i ==> s[j].version != ver,
            decreases versions@.len() - i,
        {
            if versions[i].version == ver {
                proof {
                    assert(s[i as int].version == ver);
                    let c = choose|c: int|
                        0 <= c < s.len() && s[c].version == ver && forall|j: int| 0 <= j < c ==> s[j].version != ver;
                    assert(c == i);
                }
                return Some(i);
            }
            i = i + 1;
        }
        None
    }

    /// The key of `name` at `version`, or at the active version when none is given.
    pub fn get_key_versioned(&self, name: &str, version: Option<u32>) -> (r: Result<Vec<u8>, AppError>)
        requires
            self.wf(),
        ensures
            match r {
                Ok(k) => spec_get(self.view(), name@, version) == Some(k@),
                Err(e) => spec_get(self.view(), name@, version) is None && e.code == ErrorCode::CryptoKeyNotFound,
            },
    {
        let store = match self.keys.get(name) {
            Some(s) => s,
            None => {
                return Err(not_found(name));
            },
        };
        let ver = match version {
            Some(v) => v,
            None => store.active_version,
        };
        match Self::find_version(&store.versions, ver) {
            Some(i) => Ok(clone_bytes(&store.versions[i].key)),
            None => {
                let mut msg = String::from_str("key '");
                msg.append(name);
                msg.append("' version ");
                msg.append(ver.to_string().as_str());
                msg.append(" not found");
                Err(AppError::new(ErrorCode::CryptoKeyNotFound, msg))
            },
        }
    }

    /// The active version number of `name`.
    pub fn get_active_version(&self, name: &str) -> (r: Result<u32, AppError>)
        requires
            self.wf(),
        ensures
            match r {
                Ok(v) => self.view().contains_key(name@) && v == self.view()[name@].active,
                Err(e) => !self.view().contains_key(name@) && e.code == ErrorCode::CryptoKeyNotFound,
            },
    {
        match self.keys.get(name) {
            Some(s) => Ok(s.active_version),
            None => Err(not_found(name)),
        }
    }

    /// Every stored version of `name`, oldest first, with the active one marked.
    pub fn list_versions(&self, name: &str) -> (r: Result<Vec<KeyVersion>, AppError>)
        requires
            self.wf(),
        ensures
            match r {
                Ok(l) => self.view().contains_key(name@) && l@ == spec_list(self.view()[name@]),
                Err(e) => !self.view().contains_key(name@) && e.code == ErrorCode::CryptoKeyNotFound,
            },
    {
        let store = match self.keys.get(name) {
            Some(s) => s,
            None => {
                return Err(not_found(name));
            },
        };
        let ghost ring = store_view(*store);
        let mut out: Vec<KeyVersion> = Vec::new();
        let mut i: usize = 0;
        while i < store.versions.len()
            invariant
                i <= store.versions@.len(),
                ring == store_view(*store),
                out@ == spec_list(ring).subrange(0, i as int),
            decreases store.versions@.len() - i,
        {
            let v = &store.versions[i];
            out.push(KeyVersion { version: v.version, created_at: v.created_at, is_active: v.version == store.active_version });
            assert(spec_list(ring).subrange(0, i as int + 1) =~= spec_list(ring).subrange(0, i as int).push(spec_list(ring)[i as int]));
            i = i + 1;
        }
        assert(spec_list(ring).subrange(0, store.versions@.len() as int) =~= spec_list(ring));
        Ok(out)
    }

    fn max_version_of(versions: &Vec<VersionedKey>) -> (m: u32)
        ensures
            m == max_version(versions@.map_values(|v: VersionedKey| entry_view(v))),
    {
        let ghost s = versions@.map_values(|v: VersionedKey| entry_view(v));
        let mut m: u32 = 0;
        let mut i: usize = 0;
        while i < versions.len()
            invariant
                i <= versions@.len(),
                s == versions@.map_values(|v: VersionedKey| entry_view(v)),
                m == max_version(s.subrange(0, i as int)),
            decreases versions@.len() - i,
        {
            assert(s.subrange(0, i as int + 1).drop_last() =~= s.subrange(0, i as int));
            if versions[i].version > m {
                m = versions[i].version;
            }
            i = i + 1;
        }
        assert(s.subrange(0, versions@.len() as int) =~= s);
        m
    }

    /// Rotates `name` to `new_key` created at `now`: the new version is one above
    /// the largest stored, becomes active, and only the newest
    /// `max_key_versions` versions are kept.
    pub fn rotate_key_with(&mut self, name: &str, new_key: Vec<u8>, now: u64) -> (r: Result<u32, AppError>)
        requires
            old(self).wf(),
            old(self).view().contains_key(name@) ==> max_version(old(self).view()[name@].versions) < u32::MAX,
        ensures
            final(self).wf(),
            final(self).max_versions() == old(self).max_versions(),
            match r {
                Ok(v) => old(self).view().contains_key(name@)
                    && v == max_version(old(self).view()[name@].versions) + 1
                    && final(self).view() == old(self).view().insert(
                        name@,
                        spec_rotate_ring(old(self).view()[name@], new_key@, now, old(self).max_versions()),
                    ),
                Err(e) => !old(self).view().contains_key(name@) && e.code == ErrorCode::CryptoKeyNotFound
                    && final(self).view() == old(self).view(),
            },
    {
        let ghost before = self.view();
        let i = match self.keys.find(name) {
            Some(i) => i,
            None => {
                return Err(not_found(name));
            },
        };
        let empty = KeyStore { versions: Vec::new(), active_version: 0 };
        let ghost old_keys = self.keys;
        let mut store = self.keys.replace_at(i, empty);
        proof {
            assert(store_view(store) == before[name@]);
        }
        let ghost ring = store_view(store);
        let new_version = Self::max_version_of(&store.versions) + 1;
        store.versions.push(VersionedKey { version: new_version, key: new_key, created_at: now });
        store.active_version = new_version;
        let ghost pushed = ring.versions.push(KeyEntry { version: new_version, key: new_key@, created_at: now });
        assert(store_view(store).versions =~= pushed);
        let max = self.config.max_key_versions as usize;
        if store.versions.len() > max {
            let drain_count = store.versions.len() - max;
            let tail = store.versions.split_off(drain_count);
            store.versions = tail;
            assert(store_view(store).versions =~= trim(pushed, max as nat));
        } else {
            assert(store_view(store).versions =~= trim(pushed, max as nat));
        }
        assert(store_view(store) == spec_rotate_ring(ring, new_key@, now, self.config.max_key_versions as nat));
        let _ = self.keys.replace_at(i, store);
        proof {
            assert(self.keys.view() =~= old_keys.view().insert(name@, store));
            old(self).lemma_view_insert(self, name@, store);
        }
        Ok(new_version)
    }

    /// Rotates `name` to a fresh random 32-byte key, stamped with the current time.
    pub fn rotate_key(&mut self, name: &str) -> (r: Result<u32, AppError>)
        requires
            old(self).wf(),
            old(self).view().contains_key(name@) ==> max_version(old(self).view()[name@].versions) < u32::MAX,
        ensures
            final(self).wf(),
            final(self).max_versions() == old(self).max_versions(),
            match r {
                Ok(v) => old(self).view().contains_key(name@)
                    && v == max_version(old(self).view()[name@].versions) + 1
                    && exists|k: Seq<u8>, now: u64| k.len() == 32 && final(self).view() == old(self).view().insert(
                        name@,
                        #[trigger] spec_rotate_ring(old(self).view()[name@], k, now, old(self).max_versions()),
                    ),
                Err(e) => !old(self).view().contains_key(name@) && e.code == ErrorCode::CryptoKeyNotFound
                    && final(self).view() == old(self).view(),
            },
    {
        if self.keys.find(name).is_none() {
            return Err(not_found(name));
        }
        let k = random_key32();
        let now = now_secs();
        let ghost kv = k@;
        let r = self.rotate_key_with(name, k, now);
        proof {
            if r is Ok {
                assert(final(self).view() == old(self).view().insert(name@,
                    spec_rotate_ring(old(self).view()[name@], kv, now, old(self).max_versions())));
            }
        }
        r
    }
}

/// Law: right after seeding, the active key of a name is the seeded key, as
/// long as no kept version already carries the number the seed receives.
pub proof fn lemma_seed_then_get(m: Map<Seq<char>, KeyRing>, name: Seq<char>, key: Seq<u8>, now: u64)
    requires
        ring_of(m, name).versions.len() + 1 < u32::MAX,
        forall|i: int| 0 <= i < ring_of(m, name).versions.len()
            ==> ring_of(m, name).versions[i].version != ring_of(m, name).versions.len() + 1,
    ensures
        spec_get(spec_seed(m, name, key, now), name, None) == Some(key),
        spec_get(spec_seed(m, name, key, now), name, Some((ring_of(m, name).versions.len() + 1) as u32)) == Some(key),
{
    let ring = ring_of(m, name);
    let v = (ring.versions.len() + 1) as u32;
    let s = ring.versions.push(KeyEntry { version: v, key, created_at: now });
    let n = ring.versions.len() as int;
    assert(s[n].version == v);
    let c = choose|c: int| 0 <= c < s.len() && s[c].version == v && forall|j: int| 0 <= j < c ==> s[j].version != v;
    if c < n {
        assert(s[c] == ring.versions[c]);
    }
    assert(c == n);
}

proof fn lemma_max_version_bound(s: Seq<KeyEntry>)
    ensures
        forall|i: int| 0 <= i < s.len() ==> s[i].version <= max_version(s),
    decreases s.len(),
{
    if s.len() > 0 {
        lemma_max_version_bound(s.drop_last());
        assert forall|i: int| 0 <= i < s.len() implies s[i].version <= max_version(s) by {
            if i < s.len() - 1 {
                assert(s[i] == s.drop_last()[i]);
            }
        }
    }
}

/// Law: after a rotation the new version is active and its key is the one
/// returned for the active version, provided at least one version is kept;
/// and the ring never holds more than the configured number of versions.
pub proof fn lemma_rotate_activates_new_key(ring: KeyRing, new_key: Seq<u8>, now: u64, max: nat)
    requires
        max_version(ring.versions) < u32::MAX,
    ensures
        spec_rotate_ring(ring, new_key, now, max).active == max_version(ring.versions) + 1,
        spec_rotate_ring(ring, new_key, now, max).versions.len() <= max,
        max >= 1 ==> lookup(spec_rotate_ring(ring, new_key, now, max).versions,
            spec_rotate_ring(ring, new_key, now, max).active) == Some(new_key),
{
    let v = (max_version(ring.versions) + 1) as u32;
    let pushed = ring.versions.push(KeyEntry { version: v, key: new_key, created_at: now });
    let t = trim(pushed, max);
    lemma_max_version_bound(ring.versions);
    if max >= 1 {
        let n = t.len() - 1;
        assert(t[n] == pushed[pushed.len() - 1]);
        assert(t[n].version == v);
        let c = choose|c: int| 0 <= c < t.len() && t[c].version == v && forall|j: int| 0 <= j < c ==> t[j].version != v;
        if c < n {
            let off = pushed.len() - t.len();
            assert(t[c] == pushed[c + off]);
            assert(pushed[c + off] == ring.versions[c + off]);
        }
        assert(c == n);
    }
}

/// Law: the listing marks exactly the entries that carry the active number.
pub proof fn lemma_list_marks_active(ring: KeyRing, i: int)
    requires
        0 <= i < ring.versions.len(),
    ensures
        spec_list(ring)[i].is_active == (ring.versions[i].version == ring.active),
        spec_list(ring)[i].version == ring.versions[i].version,
        spec_list(ring).len() == ring.versions.len(),
{
}

/// Law: seeding or rotating one name leaves every other name untouched.
pub proof fn lemma_names_independent(
    m: Map<Seq<char>, KeyRing>, name: Seq<char>, other: Seq<char>, key: Seq<u8>, now: u64, version: Option<u32>,
)
    requires
        name != other,
    ensures
        spec_get(spec_seed(m, name, key, now), other, version) == spec_get(m, other, version),
{
    assert(spec_seed(m, name, key, now).contains_key(other) == m.contains_key(other));
}

} // verus!
