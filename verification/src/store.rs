//! The remote-store model: a key space of counters and byte strings with
//! per-key expiry, and the four atomic routines the engine runs against it
//! (rate-limit and circuit-breaker increments and checks).
//!
//! The store itself is an external collaborator; this module carries its
//! reference semantics.  Every routine takes the host's clock as an
//! explicit argument, so rate windows align with the service rather than
//! with the store, and so the whole key space stays testable in process.
//! A routine that would overflow a counter or a timestamp fails before it
//! writes anything: a failed routine has no side effect.

use vstd::prelude::*;
use vstd::string::*;
use crate::tags::str_eq;

verus! {

/// A value held at one key: the store keeps byte strings, but values used
/// as counters are carried as integers in this model.
#[derive(Clone, Debug, PartialEq)]
pub enum StoredValue {
    /// A signed 64-bit counter.
    Int(i64),
    /// An opaque byte string; never usable as a counter.
    Bytes(Vec<u8>),
}

/// The mathematical shadow of a [`StoredValue`].
pub enum StoredView {
    /// A counter value.
    Int(i64),
    /// The bytes of an opaque value.
    Bytes(Seq<u8>),
}

impl View for StoredValue {
    type V = StoredView;

    open spec fn view(&self) -> StoredView {
        match self {
            StoredValue::Int(v) => StoredView::Int(*v),
            StoredValue::Bytes(b) => StoredView::Bytes(b@),
        }
    }
}

/// One key of the store: its value and, if one is set, the moment the key
/// lapses.  A key whose expiry is not in the future is as good as absent.
#[derive(Clone, Debug)]
pub struct StoreEntry {
    /// The key.
    pub key: String,
    /// The value held at the key.
    pub value: StoredValue,
    /// The moment (seconds since the epoch) from which the key no longer
    /// exists, or `None` for a key that never lapses.
    pub expire_at: Option<i64>,
}

/// What the store holds at one key: the value's shadow and the expiry.
pub type Cell = Option<(StoredView, Option<i64>)>;

/// Copies a byte string, byte for byte.
pub(crate) fn copy_bytes(b: &Vec<u8>) -> (r: Vec<u8>)
    ensures
        r@ == b@,
{
    let mut r: Vec<u8> = Vec::new();
    let mut i: usize = 0;
    while i < b.len()
        invariant
            0 <= i <= b@.len(),
            r@ == b@.subrange(0, i as int),
        decreases b@.len() - i,
    {
        r.push(b[i]);
        proof {
            assert(r@ =~= b@.subrange(0, i as int + 1));
        }
        i = i + 1;
    }
    proof {
        assert(b@.subrange(0, b@.len() as int) =~= b@);
    }
    r
}

/// Copies a stored value; the copy has the same shadow.
fn copy_value(v: &StoredValue) -> (r: StoredValue)
    ensures
        r@ == v@,
{
    match v {
        StoredValue::Int(x) => StoredValue::Int(*x),
        StoredValue::Bytes(b) => StoredValue::Bytes(copy_bytes(b)),
    }
}

/// No two entries share a key.
pub open spec fn seq_wf(s: Seq<StoreEntry>) -> bool {
    forall|i: int, j: int|
        0 <= i < j < s.len() ==> (#[trigger] s[i]).key@ != (#[trigger] s[j]).key@
}

/// Some entry holds the key.
pub open spec fn seq_has(s: Seq<StoreEntry>, k: Seq<char>) -> bool {
    exists|i: int| 0 <= i < s.len() && (#[trigger] s[i]).key@ == k
}

/// The index of the entry holding the key.
pub open spec fn seq_idx(s: Seq<StoreEntry>, k: Seq<char>) -> int {
    choose|i: int| 0 <= i < s.len() && (#[trigger] s[i]).key@ == k
}

/// The cell at a key: its value shadow and expiry, or `None` when no entry
/// holds the key.
pub open spec fn seq_cell(s: Seq<StoreEntry>, k: Seq<char>) -> Cell {
    if seq_has(s, k) {
        let e = s[seq_idx(s, k)];
        Some((e.value@, e.expire_at))
    } else {
        None
    }
}

/// A cell with the given expiry is alive at the given moment.
pub open spec fn expiry_live(expire_at: Option<i64>, now: i64) -> bool {
    match expire_at {
        None => true,
        Some(t) => now < t,
    }
}

/// In a well-formed store, the entry at any index is the one its key finds.
proof fn lemma_cell_at(s: Seq<StoreEntry>, i: int)
    requires
        seq_wf(s),
        0 <= i < s.len(),
    ensures
        seq_has(s, s[i].key@),
        seq_idx(s, s[i].key@) == i,
{
    assert(seq_has(s, s[i].key@));
    let j = seq_idx(s, s[i].key@);
    if j != i {
        if j < i {
            assert(s[j].key@ != s[i].key@);
        } else {
            assert(s[i].key@ != s[j].key@);
        }
    }
}

/// Replacing the entry at an index, key unchanged, rewrites that key's cell
/// and no other.
proof fn lemma_cell_update(s: Seq<StoreEntry>, i: int, e: StoreEntry)
    requires
        seq_wf(s),
        0 <= i < s.len(),
        e.key@ == s[i].key@,
    ensures
        seq_wf(s.update(i, e)),
        seq_cell(s.update(i, e), e.key@) == Some((e.value@, e.expire_at)),
        forall|k2: Seq<char>| k2 != e.key@ ==> seq_cell(s.update(i, e), k2) == seq_cell(s, k2),
{
    let t = s.update(i, e);
    assert(seq_wf(t));
    lemma_cell_at(t, i);
    assert forall|k2: Seq<char>| k2 != e.key@ implies seq_cell(t, k2) == seq_cell(s, k2) by {
        if seq_has(s, k2) {
            let j = seq_idx(s, k2);
            assert(j != i);
            assert(t[j] == s[j]);
            lemma_cell_at(t, j);
        } else {
            if seq_has(t, k2) {
                let j = seq_idx(t, k2);
                assert(s[j].key@ == k2);
            }
        }
    }
}

/// Appending an entry under a fresh key adds that key's cell and no other.
proof fn lemma_cell_push(s: Seq<StoreEntry>, e: StoreEntry)
    requires
        seq_wf(s),
        !seq_has(s, e.key@),
    ensures
        seq_wf(s.push(e)),
        seq_cell(s.push(e), e.key@) == Some((e.value@, e.expire_at)),
        forall|k2: Seq<char>| k2 != e.key@ ==> seq_cell(s.push(e), k2) == seq_cell(s, k2),
{
    let t = s.push(e);
    assert forall|i: int, j: int|
        0 <= i < j < t.len() implies (#[trigger] t[i]).key@ != (#[trigger] t[j]).key@ by {
        if j == t.len() - 1 {
            assert(t[i] == s[i]);
        }
    }
    lemma_cell_at(t, s.len() as int);
    assert forall|k2: Seq<char>| k2 != e.key@ implies seq_cell(t, k2) == seq_cell(s, k2) by {
        if seq_has(s, k2) {
            let j = seq_idx(s, k2);
            assert(t[j] == s[j]);
            lemma_cell_at(t, j);
        } else {
            if seq_has(t, k2) {
                let j = seq_idx(t, k2);
                assert(j < s.len() ==> s[j].key@ == k2);
                assert(j == s.len() ==> t[j].key@ == e.key@);
            }
        }
    }
}

/// How `incr_by` steps one key of the store: no change on failure; on
/// success the key holds the new counter, a live key keeping its expiry
/// and a fresh one having none, and every other key is untouched.
pub open spec fn incr_step(
    pre: StoreModel,
    post: StoreModel,
    k: Seq<char>,
    delta: i64,
    now: i64,
    r: Result<i64, StoreError>,
) -> bool {
    &&& post.wf()
    &&& (r is Err <==> (match pre.spec_value(k, now) {
        Some(StoredView::Bytes(_)) => true,
        Some(StoredView::Int(v)) => v + delta > i64::MAX || v + delta < i64::MIN,
        None => false,
    }))
    &&& (r is Err ==> forall|k2: Seq<char>| post.spec_cell(k2) == pre.spec_cell(k2))
    &&& (r is Ok ==> (match pre.spec_value(k, now) {
        Some(StoredView::Int(v)) => r->Ok_0 == v + delta && post.spec_cell(k) == Some(
            (StoredView::Int((v + delta) as i64), pre.spec_cell(k)->Some_0.1),
        ),
        _ => r->Ok_0 == delta && post.spec_cell(k) == Some(
            (StoredView::Int(delta), Option::<i64>::None),
        ),
    }))
    &&& (r is Ok ==> forall|k2: Seq<char>| k2 != k ==> post.spec_cell(k2) == pre.spec_cell(k2))
}

/// A failure of a store routine.
#[derive(Clone, Copy, Debug, PartialEq, Eq, Structural)]
pub enum StoreError {
    /// A counter operation reached a value that is not an integer.
    NotInteger,
    /// A counter or a timestamp left the signed 64-bit range.
    Overflow,
}

/// The in-process model of the remote key-value store.
#[derive(Clone, Debug)]
pub struct StoreModel {
    /// The entries, one per key.
    pub entries: Vec<StoreEntry>,
}

impl StoreModel {
    /// The store is well formed: one entry per key.
    pub open spec fn wf(self) -> bool {
        seq_wf(self.entries@)
    }

    /// The cell at a key, expiry ignored.
    pub open spec fn spec_cell(self, k: Seq<char>) -> Cell {
        seq_cell(self.entries@, k)
    }

    /// The value visible at a key at the given moment, or `None` for an
    /// absent or lapsed key.
    pub open spec fn spec_value(self, k: Seq<char>, now: i64) -> Option<StoredView> {
        match self.spec_cell(k) {
            Some((v, exp)) => if expiry_live(exp, now) {
                Some(v)
            } else {
                None
            },
            None => None,
        }
    }

    /// The counter visible at a key at the given moment: `None` for an
    /// absent, lapsed or non-integer value.
    pub open spec fn spec_num(self, k: Seq<char>, now: i64) -> Option<i64> {
        match self.spec_value(k, now) {
            Some(StoredView::Int(v)) => Some(v),
            _ => None,
        }
    }

    /// An empty store.
    pub fn new() -> (s: StoreModel)
        ensures
            s.wf(),
            forall|k: Seq<char>| s.spec_cell(k) is None,
    {
        StoreModel { entries: Vec::new() }
    }

    /// Finds the entry index holding a key.
    pub(crate) fn find(&self, key: &str) -> (r: Option<usize>)
        requires
            self.wf(),
        ensures
            match r {
                Some(i) => 0 <= i < self.entries@.len() && self.entries@[i as int].key@ == key@
                    && seq_idx(self.entries@, key@) == i && seq_has(self.entries@, key@),
                None => !seq_has(self.entries@, key@),
            },
    {
        let mut i: usize = 0;
        while i < self.entries.len()
            invariant
                self.wf(),
                0 <= i <= self.entries@.len(),
                forall|j: int| 0 <= j < i ==> (#[trigger] self.entries@[j]).key@ != key@,
            decreases self.entries@.len() - i,
        {
            if str_eq((&self.entries[i].key).as_str(), key) {
                proof {
                    lemma_cell_at(self.entries@, i as int);
                }
                return Some(i);
            }
            i = i + 1;
        }
        None
    }

    /// Reads the value visible at a key at the given moment.
    pub fn get_value(&self, key: &str, now: i64) -> (r: Option<StoredValue>)
        requires
            self.wf(),
        ensures
            match r {
                Some(v) => self.spec_value(key@, now) == Some(v@),
                None => self.spec_value(key@, now) is None,
            },
    {
        match self.find(key) {
            Some(i) => {
                let e = &self.entries[i];
                let live = match e.expire_at {
                    None => true,
                    Some(t) => now < t,
                };
                if live {
                    Some(copy_value(&e.value))
                } else {
                    None
                }
            },
            None => None,
        }
    }

    /// Writes a value at a key, clearing any expiry, as the store's plain
    /// `set` does.
    pub fn set_value(&mut self, key: &str, value: StoredValue)
        requires
            old(self).wf(),
        ensures
            final(self).wf(),
            final(self).spec_cell(key@) == Some((value@, Option::<i64>::None)),
            forall|k2: Seq<char>|
                k2 != key@ ==> final(self).spec_cell(k2) == old(self).spec_cell(k2),
    {
        let ghost pre = self.entries@;
        let entry = StoreEntry { key: String::from_str(key), value, expire_at: None };
        let ghost eg = entry;
        match self.find(key) {
            Some(i) => {
                self.entries[i] = entry;
                proof {
                    assert(self.entries@ =~= pre.update(i as int, eg));
                    lemma_cell_update(pre, i as int, eg);
                }
            },
            None => {
                self.entries.push(entry);
                proof {
                    assert(self.entries@ =~= pre.push(eg));
                    lemma_cell_push(pre, eg);
                }
            },
        }
    }

    /// Increments the counter at a key, creating it (without expiry) when
    /// it is absent or lapsed, and keeping its expiry when it is alive: the
    /// store's `incrby`.  Fails, leaving every cell as it was, exactly when
    /// the visible value is not an integer or the sum leaves the 64-bit
    /// range.
    pub fn incr_by(&mut self, key: &str, delta: i64, now: i64) -> (r: Result<i64, StoreError>)
        requires
            old(self).wf(),
        ensures
            incr_step(*old(self), *final(self), key@, delta, now, r),
    {
        let ghost pre = self.entries@;
        match self.find(key) {
            Some(i) => {
                let live = match self.entries[i].expire_at {
                    None => true,
                    Some(t) => now < t,
                };
                if live {
                    match self.entries[i].value {
                        StoredValue::Int(v) => {
                            let sum_wide: i128 = v as i128 + delta as i128;
                            if sum_wide > i64::MAX as i128 || sum_wide < i64::MIN as i128 {
                                return Err(StoreError::Overflow);
                            }
                            let sum: i64 = v + delta;
                            let entry = StoreEntry {
                                key: String::from_str(key),
                                value: StoredValue::Int(sum),
                                expire_at: self.entries[i].expire_at,
                            };
                            let ghost eg = entry;
                            self.entries[i] = entry;
                            proof {
                                assert(self.entries@ =~= pre.update(i as int, eg));
                                lemma_cell_update(pre, i as int, eg);
                            }
                            Ok(sum)
                        },
                        StoredValue::Bytes(_) => Err(StoreError::NotInteger),
                    }
                } else {
                    let entry = StoreEntry {
                        key: String::from_str(key),
                        value: StoredValue::Int(delta),
                        expire_at: None,
                    };
                    let ghost eg = entry;
                    self.entries[i] = entry;
                    proof {
                        assert(self.entries@ =~= pre.update(i as int, eg));
                        lemma_cell_update(pre, i as int, eg);
                    }
                    Ok(delta)
                }
            },
            None => {
                let entry = StoreEntry {
                    key: String::from_str(key),
                    value: StoredValue::Int(delta),
                    expire_at: None,
                };
                let ghost eg = entry;
                self.entries.push(entry);
                proof {
                    assert(self.entries@ =~= pre.push(eg));
                    lemma_cell_push(pre, eg);
                }
                Ok(delta)
            },
        }
    }

    /// Sets the moment a key lapses, as the store's `expireat` does:
    /// effective only on a key alive at the given moment, and answering
    /// whether it was.
    pub fn set_expiry(&mut self, key: &str, at: i64, now: i64) -> (r: bool)
        requires
            old(self).wf(),
        ensures
            final(self).wf(),
            r == old(self).spec_value(key@, now) is Some,
            r ==> final(self).spec_cell(key@) == Some(
                (old(self).spec_cell(key@)->Some_0.0, Some(at)),
            ),
            r ==> forall|k2: Seq<char>|
                k2 != key@ ==> final(self).spec_cell(k2) == old(self).spec_cell(k2),
            !r ==> forall|k2: Seq<char>| final(self).spec_cell(k2) == old(self).spec_cell(k2),
    {
        let ghost pre = self.entries@;
        match self.find(key) {
            Some(i) => {
                let live = match self.entries[i].expire_at {
                    None => true,
                    Some(t) => now < t,
                };
                if live {
                    let entry = StoreEntry {
                        key: String::from_str(key),
                        value: copy_value(&self.entries[i].value),
                        expire_at: Some(at),
                    };
                    let ghost eg = entry;
                    proof {
                        assert(eg.value@ == pre[i as int].value@);
                    }
                    self.entries[i] = entry;
                    proof {
                        assert(self.entries@ =~= pre.update(i as int, eg));
                        lemma_cell_update(pre, i as int, eg);
                    }
                    true
                } else {
                    false
                }
            },
            None => false,
        }
    }
}

} // verus!
