//! A detection plugin: an immutable reference name, the serialized guest
//! configuration, the permission grants, and the decision weight.
//!
//! Compiling the plugin's module is the engine host's business; what this
//! crate needs of a plugin is the data here.

use vstd::prelude::*;
use vstd::string::*;
use crate::decision::SCALE;
use crate::perms::Permissions;
use crate::store::copy_bytes;

verus! {

/// A detection plugin's host-side identity and grants.  One plugin may
/// back many instances.
#[derive(Debug)]
pub struct Plugin {
    /// The plugin's reference name.
    pub reference: String,
    /// The guest configuration, serialized for the sandbox boundary.
    pub guest_config: Vec<u8>,
    /// The permission grants.
    pub permissions: Permissions,
    /// The decision weight in fixed point; [`SCALE`] is a weight of one.
    pub weight: u64,
}

impl Plugin {
    /// Assembles a plugin from its compiled parts.
    pub fn new(reference: String, guest_config: Vec<u8>, permissions: Permissions, weight: u64)
        -> (p: Plugin)
        ensures
            p.reference@ == reference@,
            p.guest_config@ == guest_config@,
            p.permissions == permissions,
            p.weight == weight,
    {
        Plugin { reference, guest_config, permissions, weight }
    }

    /// A plugin with no grants and a weight of one, for hosts that run a
    /// module without static configuration.
    pub fn plain(reference: String) -> (p: Plugin)
        ensures
            p.reference@ == reference@,
            p.guest_config@.len() == 0,
            p.weight == SCALE,
            forall|n: Seq<char>| !p.permissions.spec_env_allowed(n),
            forall|h: Seq<char>| !p.permissions.spec_http_allowed(h),
            forall|k: Seq<char>| !p.permissions.spec_state_allowed(k),
    {
        Plugin {
            reference,
            guest_config: Vec::new(),
            permissions: Permissions::none(),
            weight: SCALE,
        }
    }

    /// The guest configuration, as the sandbox hands it to the guest.
    pub fn guest_config(&self) -> (r: &Vec<u8>)
        ensures
            r@ == self.guest_config@,
    {
        &self.guest_config
    }

    /// The plugin's permission grants.
    pub fn permissions(&self) -> (r: Permissions)
        ensures
            forall|n: Seq<char>|
                r.spec_env_allowed(n) == self.permissions.spec_env_allowed(n),
            forall|h: Seq<char>|
                r.spec_http_allowed(h) == self.permissions.spec_http_allowed(h),
            forall|k: Seq<char>|
                r.spec_state_allowed(k) == self.permissions.spec_state_allowed(k),
    {
        self.permissions.duplicate()
    }

    /// The plugin's reference name.
    pub fn reference(&self) -> (r: String)
        ensures
            r@ == self.reference@,
    {
        String::from_str(self.reference.as_str())
    }

    /// A copy of the serialized guest configuration.
    pub fn guest_config_bytes(&self) -> (r: Vec<u8>)
        ensures
            r@ == self.guest_config@,
    {
        copy_bytes(&self.guest_config)
    }
}

} // verus!
