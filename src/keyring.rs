//! The ring of symmetric encryption keys: at most `RETENTION_LIMIT` keys,
//! the newest one current, the oldest evicted first.

use vstd::prelude::*;
use crate::compare::text_eq;
use crate::error::SecurityError;
use crate::primitives::{fresh_uuid, random_bytes, utc_now};
use crate::timestamp::Timestamp;

verus! {

/// How many keys the ring keeps.
pub const RETENTION_LIMIT: usize = 3;

/// Length of the key material, in bytes.
pub const KEY_LEN: usize = 32;

/// One key of the ring: its identifier, its material and when it was made.
pub struct KeyEntry {
    pub id: String,
    pub material: Vec<u8>,
    pub created_at: Timestamp,
}

/// The ring's invariant: within the retention limit, identifiers distinct,
/// every key of the full length.
pub open spec fn ring_wf(s: Seq<KeyEntry>) -> bool {
    &&& s.len() <= RETENTION_LIMIT
    &&& forall|i: int, j: int| 0 <= i < j < s.len() ==> s[i].id@ != s[j].id@
    &&& forall|i: int| 0 <= i < s.len() ==> #[trigger] s[i].material@.len() == KEY_LEN
}

/// Some key of `s` has identifier `id`.
pub open spec fn has_id(s: Seq<KeyEntry>, id: Seq<char>) -> bool {
    exists|i: int| 0 <= i < s.len() && #[trigger] s[i].id@ == id
}

/// `s[k]` is the oldest key: no key is older, and those as old come later.
pub open spec fn is_oldest_at(s: Seq<KeyEntry>, k: int) -> bool {
    &&& 0 <= k < s.len()
    &&& forall|j: int| 0 <= j < k ==> s[k].created_at.earlier(#[trigger] s[j].created_at)
    &&& forall|j: int| k < j < s.len() ==> !(#[trigger] s[j].created_at).earlier(s[k].created_at)
}

/// `s[k]` is the current key: no key is newer, and those as new come earlier.
pub open spec fn is_current_at(s: Seq<KeyEntry>, k: int) -> bool {
    &&& 0 <= k < s.len()
    &&& forall|j: int| 0 <= j < k ==> !s[k].created_at.earlier(#[trigger] s[j].created_at)
    &&& forall|j: int| k < j < s.len() ==> (#[trigger] s[j].created_at).earlier(s[k].created_at)
}

/// `new` is the ring `old` after adding `e`: a key with the same identifier
/// is replaced in place; otherwise `e` joins, and if that exceeds the
/// retention limit the oldest key leaves.
pub open spec fn after_insert(old: Seq<KeyEntry>, e: KeyEntry, new: Seq<KeyEntry>) -> bool {
    if has_id(old, e.id@) {
        exists|i: int| 0 <= i < old.len() && old[i].id@ == e.id@ && new == old.update(i, e)
    } else if old.len() < RETENTION_LIMIT {
        new == old.push(e)
    } else {
        exists|k: int| is_oldest_at(old.push(e), k) && new == old.push(e).remove(k)
    }
}

pub struct KeyRing {
    entries: Vec<KeyEntry>,
}

impl View for KeyRing {
    type V = Seq<KeyEntry>;

    closed spec fn view(&self) -> Seq<KeyEntry> {
        self.entries@
    }
}

impl KeyRing {
    pub open spec fn wf(&self) -> bool {
        ring_wf(self@)
    }

    /// An empty ring.
    pub fn new() -> (r: KeyRing)
        ensures
            r@ == Seq::<KeyEntry>::empty(),
            r.wf(),
    {
        KeyRing { entries: Vec::new() }
    }

    /// Number of keys held.
    pub fn len(&self) -> (r: usize)
        ensures
            r == self@.len(),
    {
        self.entries.len()
    }

    /// True iff at least one key is present.
    pub fn is_ready(&self) -> (r: bool)
        ensures
            r == (self@.len() > 0),
    {
        self.entries.len() > 0
    }

    /// Index of the key named `id`, if any.
    fn position(&self, id: &str) -> (r: Option<usize>)
        requires
            self.wf(),
        ensures
            r is Some <==> has_id(self@, id@),
            r is Some ==> r->Some_0 < self@.len() && self@[r->Some_0 as int].id@ == id@,
    {
        let mut i: usize = 0;
        while i < self.entries.len()
            invariant
                0 <= i <= self@.len(),
                self@ == self.entries@,
                forall|j: int| 0 <= j < i ==> #[trigger] self@[j].id@ != id@,
            decreases self@.len() - i,
        {
            if text_eq(self.entries[i].id.as_str(), id) {
                return Some(i);
            }
            i = i + 1;
        }
        None
    }

    /// The key named `key_id`; `KeyNotFound` if no key of the ring (any more)
    /// has that identifier.
    pub fn get(&self, key_id: &str) -> (r: Result<&KeyEntry, SecurityError>)
        requires
            self.wf(),
        ensures
            r is Err <==> !has_id(self@, key_id@),
            r is Err ==> r->Err_0 == SecurityError::KeyNotFound,
            r is Ok ==> r->Ok_0.id@ == key_id@ && r->Ok_0.material@.len() == KEY_LEN
                && exists|i: int| 0 <= i < self@.len() && self@[i] == *r->Ok_0,
    {
        match self.position(key_id) {
            Some(i) => Ok(&self.entries[i]),
            None => Err(SecurityError::KeyNotFound),
        }
    }

    /// Index of the oldest key of a non-empty list.
    fn oldest_index(s: &Vec<KeyEntry>) -> (r: usize)
        requires
            s@.len() > 0,
        ensures
            is_oldest_at(s@, r as int),
    {
        let mut best: usize = 0;
        let mut i: usize = 1;
        while i < s.len()
            invariant
                1 <= i <= s@.len(),
                is_oldest_at(s@.subrange(0, i as int), best as int),
            decreases s@.len() - i,
        {
            if s[i].created_at.is_before(&s[best].created_at) {
                best = i;
            }
            assert(s@.subrange(0, i + 1).subrange(0, i as int) == s@.subrange(0, i as int));
            i = i + 1;
        }
        assert(s@.subrange(0, s@.len() as int) == s@);
        best
    }

    /// Index of the current key of a non-empty list.
    fn current_index(s: &Vec<KeyEntry>) -> (r: usize)
        requires
            s@.len() > 0,
        ensures
            is_current_at(s@, r as int),
    {
        let mut best: usize = 0;
        let mut i: usize = 1;
        while i < s.len()
            invariant
                1 <= i <= s@.len(),
                is_current_at(s@.subrange(0, i as int), best as int),
            decreases s@.len() - i,
        {
            if !s[i].created_at.is_before(&s[best].created_at) {
                best = i;
            }
            assert(s@.subrange(0, i + 1).subrange(0, i as int) == s@.subrange(0, i as int));
            i = i + 1;
        }
        assert(s@.subrange(0, s@.len() as int) == s@);
        best
    }

    /// Identifier of the key with the latest creation time (the last added
    /// among equals); `KeyRingEmpty` if the ring holds no key.
    pub fn current_key_id(&self) -> (r: Result<String, SecurityError>)
        requires
            self.wf(),
        ensures
            r is Err <==> self@.len() == 0,
            r is Err ==> r->Err_0 == SecurityError::KeyRingEmpty,
            r is Ok ==> exists|k: int| is_current_at(self@, k) && self@[k].id@ == r->Ok_0@,
    {
        if self.entries.len() == 0 {
            return Err(SecurityError::KeyRingEmpty);
        }
        let k = KeyRing::current_index(&self.entries);
        Ok(self.entries[k].id.clone())
    }

    /// Adds `e` to the ring as `after_insert` describes.
    pub fn insert_key(&mut self, e: KeyEntry)
        requires
            old(self).wf(),
            e.material@.len() == KEY_LEN,
        ensures
            final(self).wf(),
            after_insert(old(self)@, e, final(self)@),
    {
        let ghost s0 = self@;
        let ghost e0 = e;
        match self.position(e.id.as_str()) {
            Some(i) => {
                self.entries.remove(i);
                self.entries.insert(i, e);
                assert(self@ == s0.update(i as int, e0));
            },
            None => {
                self.entries.push(e);
                if self.entries.len() > RETENTION_LIMIT {
                    let k = KeyRing::oldest_index(&self.entries);
                    self.entries.remove(k);
                    let ghost s1 = s0.push(e0);
                    assert forall|i: int, j: int| 0 <= i < j < self@.len() implies self@[i].id@
                        != self@[j].id@ by {
                        let i1 = if i < k { i } else { i + 1 };
                        let j1 = if j < k { j } else { j + 1 };
                        assert(self@[i] == s1[i1]);
                        assert(self@[j] == s1[j1]);
                    }
                    assert forall|i: int| 0 <= i < self@.len() implies #[trigger] self@[i].material@.len()
                        == KEY_LEN by {
                        let i1 = if i < k { i } else { i + 1 };
                        assert(self@[i] == s1[i1]);
                    }
                }
            },
        }
    }

    /// Draws fresh key material and a fresh identifier and adds the key,
    /// evicting the oldest beyond the retention limit; returns the new
    /// identifier. The key is stamped with the current time, or with the
    /// current key's creation time if the clock reads earlier, so that the new
    /// key is always the current one. Fails with `EntropyFailure` if no random
    /// bytes can be had, and with `CryptoError` if the identifier drawn is
    /// already in the ring; the ring is then left as it was.
    pub fn generate_and_activate(&mut self) -> (r: Result<String, SecurityError>)
        requires
            old(self).wf(),
        ensures
            final(self).wf(),
            r is Err ==> (r->Err_0 == SecurityError::EntropyFailure || r->Err_0
                == SecurityError::CryptoError) && final(self)@ == old(self)@,
            r is Ok ==> !has_id(old(self)@, r->Ok_0@),
            r is Ok ==> final(self)@.len() == if old(self)@.len() < RETENTION_LIMIT {
                old(self)@.len() + 1 as int
            } else {
                RETENTION_LIMIT as int
            },
            r is Ok ==> is_current_at(final(self)@, final(self)@.len() - 1) && final(self)@.last().id@
                == r->Ok_0@,
            r is Ok ==> exists|e: KeyEntry|
                e.id@ == r->Ok_0@ && e.material@.len() == KEY_LEN && #[trigger] after_insert(
                    old(self)@,
                    e,
                    final(self)@,
                ),
    {
        let material = match random_bytes(KEY_LEN) {
            Ok(m) => m,
            Err(_) => {
                return Err(SecurityError::EntropyFailure);
            },
        };
        let id = fresh_uuid();
        match self.position(id.as_str()) {
            Some(_) => {
                return Err(SecurityError::CryptoError);
            },
            None => {},
        }
        let now = utc_now();
        let ghost s0 = self@;
        let created_at = if self.entries.len() == 0 {
            now
        } else {
            let k = KeyRing::current_index(&self.entries);
            proof {
                assert forall|j: int| 0 <= j < s0.len() implies !s0[k as int].created_at.earlier(
                    #[trigger] s0[j].created_at,
                ) by {
                    if j > k as int {
                        assert(s0[j].created_at.earlier(s0[k as int].created_at));
                    }
                }
            }
            if now.is_before(&self.entries[k].created_at) {
                self.entries[k].created_at
            } else {
                now
            }
        };
        let e = KeyEntry { id: id.clone(), material, created_at };
        let ghost e0 = e;
        assert(forall|j: int| 0 <= j < s0.len() ==> !e0.created_at.earlier(#[trigger] s0[j].created_at));
        self.insert_key(e);
        proof {
            let s1 = s0.push(e0);
            if s0.len() >= RETENTION_LIMIT {
                let k = choose|k: int| is_oldest_at(s1, k) && self@ == s1.remove(k);
                if k == s1.len() - 1 {
                    assert(s1[k].created_at.earlier(s1[0].created_at));
                }
                assert(self@.last() == e0);
                assert forall|j: int| 0 <= j < self@.len() - 1 implies !self@.last().created_at.earlier(
                    #[trigger] self@[j].created_at,
                ) by {
                    let j1 = if j < k { j } else { j + 1 };
                    assert(self@[j] == s1[j1]);
                }
            } else {
                assert(self@ == s1);
                assert forall|j: int| 0 <= j < self@.len() - 1 implies !self@.last().created_at.earlier(
                    #[trigger] self@[j].created_at,
                ) by {
                    assert(self@[j] == s0[j]);
                }
            }
            assert(after_insert(s0, e0, self@));
        }
        Ok(id)
    }
}

/// Four rotations from an empty ring, with four distinct identifiers and the
/// first key no newer than the other three, leave exactly three keys, and the
/// first key is no longer among them.
pub proof fn lemma_rotation_retention(
    r0: Seq<KeyEntry>,
    r1: Seq<KeyEntry>,
    r2: Seq<KeyEntry>,
    r3: Seq<KeyEntry>,
    r4: Seq<KeyEntry>,
    e1: KeyEntry,
    e2: KeyEntry,
    e3: KeyEntry,
    e4: KeyEntry,
)
    requires
        r0.len() == 0,
        after_insert(r0, e1, r1),
        after_insert(r1, e2, r2),
        after_insert(r2, e3, r3),
        after_insert(r3, e4, r4),
        e1.id@ != e2.id@,
        e1.id@ != e3.id@,
        e1.id@ != e4.id@,
        e2.id@ != e3.id@,
        e2.id@ != e4.id@,
        e3.id@ != e4.id@,
        !e2.created_at.earlier(e1.created_at),
        !e3.created_at.earlier(e1.created_at),
        !e4.created_at.earlier(e1.created_at),
    ensures
        r4.len() == RETENTION_LIMIT,
        !has_id(r4, e1.id@),
{
    assert(r1 == seq![e1]);
    assert(!has_id(r1, e2.id@));
    assert(r2 == seq![e1, e2]);
    assert(!has_id(r2, e3.id@));
    assert(r3 == seq![e1, e2, e3]);
    assert(!has_id(r3, e4.id@));
    let s = r3.push(e4);
    let k = choose|k: int| is_oldest_at(s, k) && r4 == s.remove(k);
    if k > 0 {
        assert(s[k].created_at.earlier(s[0].created_at));
    }
    assert(r4 == seq![e2, e3, e4]);
}

} // verus!
