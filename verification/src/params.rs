//! Shared params: the per-request map of JSON-like values that all plugin
//! instances of one request read and write.
//!
//! Values form a dynamic tree: null, booleans, numbers, strings, arrays
//! and objects, as a tagged variant.  The map observes last-write-wins:
//! a read sees the latest value written under the key.

use vstd::prelude::*;
use crate::tags::str_eq;

verus! {

/// A JSON-like value.  Numbers are carried as signed 64-bit integers.
#[derive(Debug)]
pub enum Value {
    /// The null value.
    Null,
    /// A boolean.
    Bool(bool),
    /// An integer number.
    Number(i64),
    /// A text string.
    Text(String),
    /// An ordered list of values.
    Array(Vec<Value>),
    /// An ordered list of named fields.
    Object(Vec<(String, Value)>),
}

/// One binding of the params map.
#[derive(Debug)]
pub struct ParamEntry {
    /// The key.
    pub key: String,
    /// The value bound to the key.
    pub value: Value,
}

/// No two bindings share a key.
pub open spec fn params_wf(s: Seq<ParamEntry>) -> bool {
    forall|i: int, j: int|
        0 <= i < j < s.len() ==> (#[trigger] s[i]).key@ != (#[trigger] s[j]).key@
}

/// Some binding holds the key.
pub open spec fn params_has(s: Seq<ParamEntry>, k: Seq<char>) -> bool {
    exists|i: int| 0 <= i < s.len() && (#[trigger] s[i]).key@ == k
}

/// The index of the binding holding the key.
pub open spec fn params_idx(s: Seq<ParamEntry>, k: Seq<char>) -> int {
    choose|i: int| 0 <= i < s.len() && (#[trigger] s[i]).key@ == k
}

/// In a well-formed map, the binding at any index is the one its key finds.
proof fn lemma_params_at(s: Seq<ParamEntry>, i: int)
    requires
        params_wf(s),
        0 <= i < s.len(),
    ensures
        params_has(s, s[i].key@),
        params_idx(s, s[i].key@) == i,
{
    assert(params_has(s, s[i].key@));
    let j = params_idx(s, s[i].key@);
    if j != i {
        if j < i {
            assert(s[j].key@ != s[i].key@);
        } else {
            assert(s[i].key@ != s[j].key@);
        }
    }
}

/// The per-request map from keys to JSON-like values.
#[derive(Debug)]
pub struct ParamsMap {
    /// The bindings, one per key.
    pub entries: Vec<ParamEntry>,
}

impl ParamsMap {
    /// The map is well formed: one binding per key.
    pub open spec fn wf(self) -> bool {
        params_wf(self.entries@)
    }

    /// The value bound to a key, if any.
    pub open spec fn spec_value(self, k: Seq<char>) -> Option<Value> {
        if params_has(self.entries@, k) {
            Some(self.entries@[params_idx(self.entries@, k)].value)
        } else {
            None
        }
    }

    /// An empty map.
    pub fn new() -> (m: ParamsMap)
        ensures
            m.wf(),
            forall|k: Seq<char>| m.spec_value(k) is None,
    {
        ParamsMap { entries: Vec::new() }
    }

    /// Finds the binding index holding a key.
    fn find(&self, key: &str) -> (r: Option<usize>)
        requires
            self.wf(),
        ensures
            match r {
                Some(i) => 0 <= i < self.entries@.len() && self.entries@[i as int].key@ == key@
                    && params_idx(self.entries@, key@) == i && params_has(self.entries@, key@),
                None => !params_has(self.entries@, key@),
            },
    {
        let mut i: usize = 0;
        while i < self.entries.len()
            invariant
                self.wf(),
                0 <= i <= self.entries@.len(),
                forall|j: int| 0 <= j < i ==> (#[trigger] self.entries@[j]).key@ != key@,
            decreases self.entries@.len() - i,
        {
            if str_eq((&self.entries[i].key).as_str(), key) {
                proof {
                    lemma_params_at(self.entries@, i as int);
                }
                return Some(i);
            }
            i = i + 1;
        }
        None
    }

    /// Reads the value bound to a key.  An absent key reads as nothing;
    /// the caller renders that as the null value.
    pub fn get(&self, key: &str) -> (r: Option<&Value>)
        requires
            self.wf(),
        ensures
            match r {
                Some(v) => self.spec_value(key@) == Some(*v),
                None => self.spec_value(key@) is None,
            },
    {
        match self.find(key) {
            Some(i) => Some(&self.entries[i].value),
            None => None,
        }
    }

    /// Binds a value to a key, replacing what was there: the latest write
    /// is what any later read observes.
    pub fn set(&mut self, key: &str, value: Value)
        requires
            old(self).wf(),
        ensures
            final(self).wf(),
            final(self).spec_value(key@) == Some(value),
            forall|k2: Seq<char>|
                k2 != key@ ==> final(self).spec_value(k2) == old(self).spec_value(k2),
    {
        let ghost pre = self.entries@;
        let entry = ParamEntry { key: String::from_str(key), value };
        let ghost eg = entry;
        match self.find(key) {
            Some(i) => {
                self.entries[i] = entry;
                proof {
                    let post = pre.update(i as int, eg);
                    assert(self.entries@ =~= post);
                    assert(params_wf(post));
                    lemma_params_at(post, i as int);
                    assert forall|k2: Seq<char>|
                        k2 != key@ implies self.spec_value(k2) == old(self).spec_value(
                        k2,
                    ) by {
                        if params_has(pre, k2) {
                            let j = params_idx(pre, k2);
                            assert(j != i);
                            assert(post[j] == pre[j]);
                            lemma_params_at(post, j);
                        } else {
                            if params_has(post, k2) {
                                let j = params_idx(post, k2);
                                assert(pre[j].key@ == k2);
                            }
                        }
                    }
                }
            },
            None => {
                self.entries.push(entry);
                proof {
                    let post = pre.push(eg);
                    assert(self.entries@ =~= post);
                    assert forall|i: int, j: int|
                        0 <= i < j < post.len() implies (#[trigger] post[i]).key@ != (
                    #[trigger] post[j]).key@ by {
                        if j == post.len() - 1 {
                            assert(post[i] == pre[i]);
                        }
                    }
                    lemma_params_at(post, pre.len() as int);
                    assert forall|k2: Seq<char>|
                        k2 != key@ implies self.spec_value(k2) == old(self).spec_value(
                        k2,
                    ) by {
                        if params_has(pre, k2) {
                            let j = params_idx(pre, k2);
                            assert(post[j] == pre[j]);
                            lemma_params_at(post, j);
                        } else {
                            if params_has(post, k2) {
                                let j = params_idx(post, k2);
                                assert(j < pre.len() ==> pre[j].key@ == k2);
                                assert(j == pre.len() ==> post[j].key@ == key@);
                            }
                        }
                    }
                }
            },
        }
    }
}

} // verus!
