//! Permission sets: the declarative capability grants attached to a plugin.
//!
//! A plugin carries three allowlists of strings.  Environment variable
//! names and outbound HTTP hosts are matched exactly; remote-store keys are
//! matched by literal prefix.  A host call outside the granted set fails
//! with a permission error and must leave every piece of state untouched.

use vstd::prelude::*;
use vstd::string::*;
use crate::tags::{copy_strings, str_eq};

verus! {

/// The capability grants of one plugin: which environment variables it may
/// read, which hosts it may call, and which remote-store key prefixes it
/// may touch.
#[derive(Clone, Debug)]
pub struct Permissions {
    /// Environment variable names the plugin may read, matched exactly.
    pub env: Vec<String>,
    /// Outbound HTTP hosts the plugin may contact, matched exactly against
    /// the host of the requested URL.
    pub http: Vec<String>,
    /// Remote-store key prefixes the plugin may operate on.
    pub state: Vec<String>,
}

/// One sequence is a prefix of another.
pub open spec fn is_prefix(pre: Seq<char>, s: Seq<char>) -> bool {
    pre.len() <= s.len() && s.subrange(0, pre.len() as int) == pre
}

/// A list of strings holds the given one, character for character.
pub open spec fn contains_str(list: Seq<String>, x: Seq<char>) -> bool {
    exists|i: int| 0 <= i < list.len() && (#[trigger] list[i])@ == x
}

impl Permissions {
    /// A plugin that may do nothing beyond pure computation.
    pub fn none() -> (p: Permissions)
        ensures
            p.env@ =~= Seq::<String>::empty(),
            p.http@ =~= Seq::<String>::empty(),
            p.state@ =~= Seq::<String>::empty(),
    {
        Permissions { env: Vec::new(), http: Vec::new(), state: Vec::new() }
    }

    /// The environment variable may be read exactly when its name is
    /// granted.
    pub open spec fn spec_env_allowed(self, name: Seq<char>) -> bool {
        contains_str(self.env@, name)
    }

    /// The host may be contacted exactly when it is granted.
    pub open spec fn spec_http_allowed(self, host: Seq<char>) -> bool {
        contains_str(self.http@, host)
    }

    /// The remote-store key may be touched exactly when some granted
    /// prefix starts it.
    pub open spec fn spec_state_allowed(self, key: Seq<char>) -> bool {
        exists|i: int| 0 <= i < self.state@.len() && is_prefix((#[trigger] self.state@[i])@, key)
    }

    /// Copies a permission set; the copy grants exactly what the original
    /// grants.
    pub fn duplicate(&self) -> (p: Permissions)
        ensures
            forall|n: Seq<char>| p.spec_env_allowed(n) == self.spec_env_allowed(n),
            forall|h: Seq<char>| p.spec_http_allowed(h) == self.spec_http_allowed(h),
            forall|k: Seq<char>| p.spec_state_allowed(k) == self.spec_state_allowed(k),
    {
        let p = Permissions {
            env: copy_strings(&self.env),
            http: copy_strings(&self.http),
            state: copy_strings(&self.state),
        };
        proof {
            assert forall|n: Seq<char>|
                p.spec_env_allowed(n) == self.spec_env_allowed(n) by {
                assert(crate::tags::string_views(p.env@) == crate::tags::string_views(self.env@));
                if contains_str(p.env@, n) {
                    let i = choose|i: int| 0 <= i < p.env@.len() && (#[trigger] p.env@[i])@ == n;
                    assert(crate::tags::string_views(self.env@)[i] == n);
                    assert(self.env@[i]@ == n);
                }
                if contains_str(self.env@, n) {
                    let i = choose|i: int|
                        0 <= i < self.env@.len() && (#[trigger] self.env@[i])@ == n;
                    assert(crate::tags::string_views(p.env@)[i] == n);
                    assert(p.env@[i]@ == n);
                }
            }
            assert forall|h: Seq<char>|
                p.spec_http_allowed(h) == self.spec_http_allowed(h) by {
                assert(crate::tags::string_views(p.http@) == crate::tags::string_views(
                    self.http@,
                ));
                if contains_str(p.http@, h) {
                    let i = choose|i: int| 0 <= i < p.http@.len() && (#[trigger] p.http@[i])@ == h;
                    assert(crate::tags::string_views(self.http@)[i] == h);
                    assert(self.http@[i]@ == h);
                }
                if contains_str(self.http@, h) {
                    let i = choose|i: int|
                        0 <= i < self.http@.len() && (#[trigger] self.http@[i])@ == h;
                    assert(crate::tags::string_views(p.http@)[i] == h);
                    assert(p.http@[i]@ == h);
                }
            }
            assert forall|k: Seq<char>|
                p.spec_state_allowed(k) == self.spec_state_allowed(k) by {
                assert(crate::tags::string_views(p.state@) == crate::tags::string_views(
                    self.state@,
                ));
                if p.spec_state_allowed(k) {
                    let i = choose|i: int|
                        0 <= i < p.state@.len() && is_prefix((#[trigger] p.state@[i])@, k);
                    assert(crate::tags::string_views(p.state@)[i] == p.state@[i]@);
                    assert(self.state@[i]@ == p.state@[i]@);
                }
                if self.spec_state_allowed(k) {
                    let i = choose|i: int|
                        0 <= i < self.state@.len() && is_prefix((#[trigger] self.state@[i])@, k);
                    assert(crate::tags::string_views(self.state@)[i] == self.state@[i]@);
                    assert(p.state@[i]@ == self.state@[i]@);
                }
            }
        }
        p
    }

    /// Decides whether an environment variable name is granted.
    pub fn env_allowed(&self, name: &str) -> (r: bool)
        ensures
            r == self.spec_env_allowed(name@),
    {
        list_contains(&self.env, name)
    }

    /// Decides whether an outbound HTTP host is granted.
    pub fn http_allowed(&self, host: &str) -> (r: bool)
        ensures
            r == self.spec_http_allowed(host@),
    {
        list_contains(&self.http, host)
    }

    /// Decides whether a remote-store key falls under a granted prefix.
    pub fn state_allowed(&self, key: &str) -> (r: bool)
        ensures
            r == self.spec_state_allowed(key@),
    {
        let mut i: usize = 0;
        while i < self.state.len()
            invariant
                0 <= i <= self.state@.len(),
                forall|k: int|
                    0 <= k < i ==> !is_prefix((#[trigger] self.state@[k])@, key@),
            decreases self.state@.len() - i,
        {
            if str_starts_with(key, (&self.state[i]).as_str()) {
                return true;
            }
            i = i + 1;
        }
        false
    }
}

/// Exact membership of a string in a list.
fn list_contains(list: &Vec<String>, x: &str) -> (r: bool)
    ensures
        r == contains_str(list@, x@),
{
    let mut i: usize = 0;
    while i < list.len()
        invariant
            0 <= i <= list@.len(),
            forall|k: int| 0 <= k < i ==> (#[trigger] list@[k])@ != x@,
        decreases list@.len() - i,
    {
        if str_eq((&list[i]).as_str(), x) {
            return true;
        }
        i = i + 1;
    }
    false
}

/// Decides whether `pre` starts `s`, character for character.
pub fn str_starts_with(s: &str, pre: &str) -> (r: bool)
    ensures
        r == is_prefix(pre@, s@),
{
    let lp = pre.unicode_len();
    let ls = s.unicode_len();
    if lp > ls {
        return false;
    }
    let mut i: usize = 0;
    while i < lp
        invariant
            0 <= i <= lp,
            lp <= ls,
            lp == pre@.len(),
            ls == s@.len(),
            forall|k: int| 0 <= k < i ==> s@[k] == pre@[k],
        decreases lp - i,
    {
        let cs = s.get_char(i);
        let cp = pre.get_char(i);
        if cs != cp {
            proof {
                assert(s@.subrange(0, lp as int)[i as int] == s@[i as int]);
            }
            return false;
        }
        i = i + 1;
    }
    proof {
        assert(s@.subrange(0, lp as int) =~= pre@);
    }
    true
}

} // verus!
