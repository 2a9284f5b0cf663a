//! The request context: the per-request, per-instance state that crosses
//! the plugin sandbox boundary, and the host-call surface guests reach.
//!
//! Every call that is permission-gated answers `PermissionDenied`, and
//! changes nothing, when the key falls outside the plugin's grants.  The
//! host clock and the environment are injected values, so the whole
//! surface is a function of the context alone.

use vstd::prelude::*;
use vstd::string::*;
use crate::decision::{spec_vacuous, Decision, SCALE};
use crate::interfaces::{
    HostCallError, IpInterface, OutboundHttpError, OutcomeInterface, RequestInterface,
    ResponseInterface,
};
use crate::outbound::{
    add_header_step, begin_step, parse_method, parse_url_domain, spec_parse_method, url_domain,
    OutboundRequest, OutboundTable,
};
use crate::params::{ParamsMap, Value};
use crate::perms::Permissions;
use crate::plugin::Plugin;
use crate::scripts::{bk_step, rl_step, BreakerInterface, RateInterface};
use crate::store::{copy_bytes, incr_step, StoredValue, StoreError, StoreModel};

verus! {

/// One environment variable of the host process, as injected at context
/// construction.
#[derive(Debug)]
pub struct EnvVar {
    /// The variable's name.
    pub name: String,
    /// The variable's value bytes.
    pub value: Vec<u8>,
}

/// The value of the first variable of the given name, if any.
pub open spec fn spec_env_lookup(s: Seq<EnvVar>, k: Seq<char>) -> Option<Seq<u8>>
    decreases s.len(),
{
    if s.len() == 0 {
        None
    } else if s[0].name@ == k {
        Some(s[0].value@)
    } else {
        spec_env_lookup(s.skip(1), k)
    }
}

/// Finds an environment variable by name.
fn env_lookup<'a>(env: &'a Vec<EnvVar>, key: &str) -> (r: Option<&'a Vec<u8>>)
    ensures
        match r {
            Some(v) => spec_env_lookup(env@, key@) == Some(v@),
            None => spec_env_lookup(env@, key@) is None,
        },
{
    let mut i: usize = 0;
    proof {
        assert(env@.skip(0) =~= env@);
    }
    while i < env.len()
        invariant
            0 <= i <= env@.len(),
            spec_env_lookup(env@, key@) == spec_env_lookup(env@.skip(i as int), key@),
        decreases env@.len() - i,
    {
        proof {
            assert(env@.skip(i as int)[0] == env@[i as int]);
        }
        if crate::tags::str_eq((&env[i].name).as_str(), key) {
            return Some(&env[i].value);
        }
        proof {
            assert(env@.skip(i as int).skip(1) =~= env@.skip(i as int + 1));
        }
        i = i + 1;
    }
    None
}

/// The slots the router writes between phases and guests read during
/// them: the interior response, the combined decision and tags, and the
/// outcome.  Reading a slot the router has not set is a phase error.
#[derive(Debug)]
pub struct HostMutableContext {
    /// The interior service's response, set before the response phase.
    pub response: Option<ResponseInterface>,
    /// The combined decision, set before the feedback phase.
    pub combined_decision: Option<Decision>,
    /// The combined tags, set before the feedback phase.
    pub combined_tags: Option<Vec<String>>,
    /// The outcome, set before the feedback phase.
    pub outcome: Option<OutcomeInterface>,
}

/// The per-request, per-instance state the host keeps for one plugin
/// instance: everything a host call reads or writes.
#[derive(Debug)]
pub struct RequestContext {
    /// The serialized guest configuration.
    pub config: Vec<u8>,
    /// The plugin's permission grants.
    pub permissions: Permissions,
    /// The params shared across the request's instances.
    pub params: ParamsMap,
    /// The incoming request, frozen.
    pub request: RequestInterface,
    /// The originating client address, when one was forwarded.
    pub client_ip: Option<IpInterface>,
    /// The remote store, when one is attached.
    pub store: Option<StoreModel>,
    /// The host clock, in seconds since the epoch, as injected.
    pub clock: i64,
    /// The host environment snapshot the plugin may be granted reads of.
    pub env: Vec<EnvVar>,
    /// The outbound requests being assembled.
    pub outbound: OutboundTable,
    /// The decision accumulator; fresh contexts commit to nothing.
    pub decision: Decision,
    /// The tags the instance has set.
    pub tags: Vec<String>,
    /// The slots the router writes between phases.
    pub host_mutable: HostMutableContext,
}

/// Every part of the context except `store` is as it was.
pub open spec fn frame_except_store(pre: RequestContext, post: RequestContext) -> bool {
    &&& post.config == pre.config
    &&& post.permissions == pre.permissions
    &&& post.params == pre.params
    &&& post.request == pre.request
    &&& post.client_ip == pre.client_ip
    &&& post.clock == pre.clock
    &&& post.env == pre.env
    &&& post.outbound == pre.outbound
    &&& post.decision == pre.decision
    &&& post.tags == pre.tags
    &&& post.host_mutable == pre.host_mutable
}

/// Every part of the context except `params` is as it was.
pub open spec fn frame_except_params(pre: RequestContext, post: RequestContext) -> bool {
    &&& post.config == pre.config
    &&& post.permissions == pre.permissions
    &&& post.request == pre.request
    &&& post.client_ip == pre.client_ip
    &&& post.store == pre.store
    &&& post.clock == pre.clock
    &&& post.env == pre.env
    &&& post.outbound == pre.outbound
    &&& post.decision == pre.decision
    &&& post.tags == pre.tags
    &&& post.host_mutable == pre.host_mutable
}

/// Every part of the context except `outbound` is as it was.
pub open spec fn frame_except_outbound(pre: RequestContext, post: RequestContext) -> bool {
    &&& post.config == pre.config
    &&& post.permissions == pre.permissions
    &&& post.params == pre.params
    &&& post.request == pre.request
    &&& post.client_ip == pre.client_ip
    &&& post.store == pre.store
    &&& post.clock == pre.clock
    &&& post.env == pre.env
    &&& post.decision == pre.decision
    &&& post.tags == pre.tags
    &&& post.host_mutable == pre.host_mutable
}

/// Every part of the context except `decision` is as it was.
pub open spec fn frame_except_decision(pre: RequestContext, post: RequestContext) -> bool {
    &&& post.config == pre.config
    &&& post.permissions == pre.permissions
    &&& post.params == pre.params
    &&& post.request == pre.request
    &&& post.client_ip == pre.client_ip
    &&& post.store == pre.store
    &&& post.clock == pre.clock
    &&& post.env == pre.env
    &&& post.outbound == pre.outbound
    &&& post.tags == pre.tags
    &&& post.host_mutable == pre.host_mutable
}

/// Every part of the context except `tags` is as it was.
pub open spec fn frame_except_tags(pre: RequestContext, post: RequestContext) -> bool {
    &&& post.config == pre.config
    &&& post.permissions == pre.permissions
    &&& post.params == pre.params
    &&& post.request == pre.request
    &&& post.client_ip == pre.client_ip
    &&& post.store == pre.store
    &&& post.clock == pre.clock
    &&& post.env == pre.env
    &&& post.outbound == pre.outbound
    &&& post.decision == pre.decision
    &&& post.host_mutable == pre.host_mutable
}

/// Every part of the context except `host_mutable` is as it was.
pub open spec fn frame_except_host_mutable(pre: RequestContext, post: RequestContext) -> bool {
    &&& post.config == pre.config
    &&& post.permissions == pre.permissions
    &&& post.params == pre.params
    &&& post.request == pre.request
    &&& post.client_ip == pre.client_ip
    &&& post.store == pre.store
    &&& post.clock == pre.clock
    &&& post.env == pre.env
    &&& post.outbound == pre.outbound
    &&& post.decision == pre.decision
    &&& post.tags == pre.tags
}

/// Every part of the context except `clock` is as it was.
pub open spec fn frame_except_clock(pre: RequestContext, post: RequestContext) -> bool {
    &&& post.config == pre.config
    &&& post.permissions == pre.permissions
    &&& post.params == pre.params
    &&& post.request == pre.request
    &&& post.client_ip == pre.client_ip
    &&& post.store == pre.store
    &&& post.env == pre.env
    &&& post.outbound == pre.outbound
    &&& post.decision == pre.decision
    &&& post.tags == pre.tags
    &&& post.host_mutable == pre.host_mutable
}

impl RequestContext {
    /// The context is well formed: its maps and table are, its decision is
    /// a valid distribution, and so is any attached store.
    pub open spec fn wf(self) -> bool {
        &&& self.params.wf()
        &&& self.outbound.wf()
        &&& self.decision.is_valid()
        &&& (match self.store {
            Some(s) => s.wf(),
            None => true,
        })
    }

    /// Builds the context for one plugin instance: the plugin's
    /// configuration and grants, the shared params, the frozen request,
    /// the forwarded client address if one is known, the injected
    /// environment and clock, and an optional store.  The decision
    /// accumulators open committed to nothing and the tag list opens
    /// empty.
    pub fn new(
        plugin: &Plugin,
        store: Option<StoreModel>,
        params: ParamsMap,
        request: RequestInterface,
        client_ip: Option<IpInterface>,
        env: Vec<EnvVar>,
        clock: i64,
    ) -> (r: RequestContext)
        requires
            params.wf(),
            match store {
                Some(s) => s.wf(),
                None => true,
            },
        ensures
            r.wf(),
            r.decision == spec_vacuous(),
            r.tags@.len() == 0,
            r.config@ == plugin.guest_config@,
            forall|n: Seq<char>|
                r.permissions.spec_env_allowed(n) == plugin.permissions.spec_env_allowed(n),
            forall|h: Seq<char>|
                r.permissions.spec_http_allowed(h) == plugin.permissions.spec_http_allowed(h),
            forall|k: Seq<char>|
                r.permissions.spec_state_allowed(k) == plugin.permissions.spec_state_allowed(k),
            r.params == params,
            r.request == request,
            r.client_ip == client_ip,
            r.store == store,
            r.clock == clock,
            r.env == env,
            r.outbound.next_id == 0,
            forall|id: u64| r.outbound.spec_pending(id) is None,
            r.host_mutable.response is None,
            r.host_mutable.combined_decision is None,
            r.host_mutable.combined_tags is None,
            r.host_mutable.outcome is None,
    {
        RequestContext {
            config: plugin.guest_config_bytes(),
            permissions: plugin.permissions(),
            params,
            request,
            client_ip,
            store,
            clock,
            env,
            outbound: OutboundTable::new(),
            decision: Decision::vacuous(),
            tags: Vec::new(),
            host_mutable: HostMutableContext {
                response: None,
                combined_decision: None,
                combined_tags: None,
                outcome: None,
            },
        }
    }

    /// Moves the injected host clock.
    pub fn set_clock(&mut self, clock: i64)
        requires
            old(self).wf(),
        ensures
            final(self).wf(),
            frame_except_clock(*old(self), *final(self)),
            final(self).clock == clock,
    {
        self.clock = clock;
    }

    /// The guest configuration, serialized.
    pub fn get_config(&self) -> (r: &Vec<u8>)
        ensures
            r@ == self.config@,
    {
        &self.config
    }

    /// The param bound to a key, or nothing, which the boundary renders
    /// as the null value.
    pub fn get_param_value(&self, key: &str) -> (r: Option<&Value>)
        requires
            self.wf(),
        ensures
            match r {
                Some(v) => self.params.spec_value(key@) == Some(*v),
                None => self.params.spec_value(key@) is None,
            },
    {
        self.params.get(key)
    }

    /// Binds a param: the latest write wins.
    pub fn set_param_value(&mut self, key: &str, value: Value)
        requires
            old(self).wf(),
        ensures
            final(self).wf(),
            frame_except_params(*old(self), *final(self)),
            final(self).params.spec_value(key@) == Some(value),
            forall|k2: Seq<char>|
                k2 != key@ ==> final(self).params.spec_value(k2) == old(self).params.spec_value(
                    k2,
                ),
    {
        self.params.set(key, value);
    }

    /// A granted environment variable's value.  A name outside the env
    /// grants is refused, and nothing is read; a granted name that is not
    /// present answers `MissingEnv`.
    pub fn get_env_bytes(&self, key: &str) -> (r: Result<Vec<u8>, HostCallError>)
        requires
            self.wf(),
        ensures
            !self.permissions.spec_env_allowed(key@) ==> r == Result::<
                Vec<u8>,
                HostCallError,
            >::Err(HostCallError::PermissionDenied),
            self.permissions.spec_env_allowed(key@) ==> (match spec_env_lookup(self.env@, key@) {
                Some(v) => r matches Ok(b) && b@ == v,
                None => r == Result::<Vec<u8>, HostCallError>::Err(HostCallError::MissingEnv),
            }),
    {
        if !self.permissions.env_allowed(key) {
            return Err(HostCallError::PermissionDenied);
        }
        match env_lookup(&self.env, key) {
            Some(v) => Ok(copy_bytes(v)),
            None => Err(HostCallError::MissingEnv),
        }
    }

    /// The frozen incoming request.
    pub fn get_request(&self) -> (r: &RequestInterface)
        ensures
            *r == self.request,
    {
        &self.request
    }

    /// The interior service's response; a phase error before the router
    /// records it.
    pub fn get_response(&self) -> (r: Result<&ResponseInterface, HostCallError>)
        ensures
            match self.host_mutable.response {
                Some(_) => r matches Ok(v) && *v == self.host_mutable.response->Some_0,
                None => r == Result::<&ResponseInterface, HostCallError>::Err(
                    HostCallError::HostState,
                ),
            },
    {
        match &self.host_mutable.response {
            Some(v) => Ok(v),
            None => Err(HostCallError::HostState),
        }
    }

    /// The originating client address, when one was forwarded.
    pub fn get_client_ip(&self) -> (r: Option<IpInterface>)
        ensures
            r == self.client_ip,
    {
        self.client_ip
    }

    /// Overwrites the decision accumulators; what `decision` later
    /// observes is the last valid distribution written.  A triple that
    /// does not sum to one unit is refused and changes nothing.
    pub fn set_decision(&mut self, d: Decision) -> (r: Result<(), HostCallError>)
        requires
            old(self).wf(),
        ensures
            final(self).wf(),
            frame_except_decision(*old(self), *final(self)),
            d.is_valid() ==> r is Ok && final(self).decision == d,
            !d.is_valid() ==> r == Result::<(), HostCallError>::Err(HostCallError::InvalidDecision)
                && final(self).decision == old(self).decision,
    {
        if d.accept as u128 + d.restrict as u128 + d.unknown as u128 == SCALE as u128 {
            self.decision = d;
            Ok(())
        } else {
            Err(HostCallError::InvalidDecision)
        }
    }

    /// Overwrites the instance's tag list; the last write wins.
    pub fn set_tags(&mut self, tags: Vec<String>)
        requires
            old(self).wf(),
        ensures
            final(self).wf(),
            frame_except_tags(*old(self), *final(self)),
            final(self).tags == tags,
    {
        self.tags = tags;
    }

    /// The combined decision; a phase error before the router records it.
    pub fn get_combined_decision(&self) -> (r: Result<Decision, HostCallError>)
        ensures
            match self.host_mutable.combined_decision {
                Some(d) => r == Result::<Decision, HostCallError>::Ok(d),
                None => r == Result::<Decision, HostCallError>::Err(HostCallError::HostState),
            },
    {
        match self.host_mutable.combined_decision {
            Some(d) => Ok(d),
            None => Err(HostCallError::HostState),
        }
    }

    /// The combined tags; a phase error before the router records them.
    pub fn get_combined_tags(&self) -> (r: Result<Vec<String>, HostCallError>)
        ensures
            match self.host_mutable.combined_tags {
                Some(ts) => r matches Ok(v) && crate::tags::string_views(v@)
                    == crate::tags::string_views(ts@),
                None => r == Result::<Vec<String>, HostCallError>::Err(HostCallError::HostState),
            },
    {
        match &self.host_mutable.combined_tags {
            Some(ts) => Ok(crate::tags::copy_strings(ts)),
            None => Err(HostCallError::HostState),
        }
    }

    /// The outcome; a phase error before the router records it.
    pub fn get_outcome(&self) -> (r: Result<OutcomeInterface, HostCallError>)
        ensures
            match self.host_mutable.outcome {
                Some(o) => r == Result::<OutcomeInterface, HostCallError>::Ok(o),
                None => r == Result::<OutcomeInterface, HostCallError>::Err(
                    HostCallError::HostState,
                ),
            },
    {
        match self.host_mutable.outcome {
            Some(o) => Ok(o),
            None => Err(HostCallError::HostState),
        }
    }

    /// Opens an outbound request under a fresh id.  The URL must parse
    /// with a domain, the domain must be granted, and the method must be
    /// a supported one, normalized without regard to case.
    pub fn prepare_request(&mut self, method: &str, uri: &str) -> (r: Result<u64, HostCallError>)
        requires
            old(self).wf(),
        ensures
            final(self).wf(),
            frame_except_outbound(*old(self), *final(self)),
            url_domain(uri@) is None ==> r == Result::<u64, HostCallError>::Err(
                HostCallError::Http(OutboundHttpError::MalformedUrl),
            ) && final(self).outbound == old(self).outbound,
            url_domain(uri@) is Some && !old(self).permissions.spec_http_allowed(
                url_domain(uri@)->Some_0,
            ) ==> r == Result::<u64, HostCallError>::Err(HostCallError::PermissionDenied)
                && final(self).outbound == old(self).outbound,
            url_domain(uri@) is Some && old(self).permissions.spec_http_allowed(
                url_domain(uri@)->Some_0,
            ) && spec_parse_method(method@) is None ==> r == Result::<u64, HostCallError>::Err(
                HostCallError::Http(OutboundHttpError::UnsupportedMethod),
            ) && final(self).outbound == old(self).outbound,
            url_domain(uri@) is Some && old(self).permissions.spec_http_allowed(
                url_domain(uri@)->Some_0,
            ) && spec_parse_method(method@) is Some ==> ({
                let m = spec_parse_method(method@)->Some_0;
                match r {
                    Ok(id) => begin_step(
                        old(self).outbound,
                        final(self).outbound,
                        m,
                        uri@,
                        Result::<u64, OutboundHttpError>::Ok(id),
                    ),
                    Err(HostCallError::Http(e)) => begin_step(
                        old(self).outbound,
                        final(self).outbound,
                        m,
                        uri@,
                        Result::<u64, OutboundHttpError>::Err(e),
                    ),
                    Err(_) => false,
                }
            }),
    {
        match parse_url_domain(uri) {
            None => Err(HostCallError::Http(OutboundHttpError::MalformedUrl)),
            Some(host) => {
                if !self.permissions.http_allowed(host.as_str()) {
                    return Err(HostCallError::PermissionDenied);
                }
                match parse_method(method) {
                    None => Err(HostCallError::Http(OutboundHttpError::UnsupportedMethod)),
                    Some(m) => {
                        let uri_owned = String::from_str(uri);
                        match self.outbound.begin(m, uri_owned) {
                            Ok(id) => Ok(id),
                            Err(e) => Err(HostCallError::Http(e)),
                        }
                    },
                }
            },
        }
    }

    /// Adds a header to the outbound request under an id.
    pub fn add_request_header(&mut self, request_id: u64, name: String, value: Vec<u8>) -> (r:
        Result<(), HostCallError>)
        requires
            old(self).wf(),
        ensures
            final(self).wf(),
            frame_except_outbound(*old(self), *final(self)),
            match r {
                Ok(u) => add_header_step(
                    old(self).outbound,
                    final(self).outbound,
                    request_id,
                    name@,
                    value@,
                    Result::<(), OutboundHttpError>::Ok(u),
                ),
                Err(HostCallError::Http(e)) => add_header_step(
                    old(self).outbound,
                    final(self).outbound,
                    request_id,
                    name@,
                    value@,
                    Result::<(), OutboundHttpError>::Err(e),
                ),
                Err(_) => false,
            },
    {
        match self.outbound.add_header(request_id, name, value) {
            Ok(u) => Ok(u),
            Err(e) => Err(HostCallError::Http(e)),
        }
    }

    /// Closes the outbound request under an id, attaching the body, and
    /// hands the completed request to the caller for sending.  The id is
    /// spent either way.
    pub fn set_request_body(&mut self, request_id: u64, body: Vec<u8>) -> (r: Result<
        OutboundRequest,
        HostCallError,
    >)
        requires
            old(self).wf(),
        ensures
            final(self).wf(),
            frame_except_outbound(*old(self), *final(self)),
            old(self).outbound.spec_pending(request_id) is None ==> r == Result::<
                OutboundRequest,
                HostCallError,
            >::Err(HostCallError::Http(OutboundHttpError::UnknownRequestId)) && final(self).outbound == old(self).outbound,
            old(self).outbound.spec_pending(request_id) is Some ==> ({
                let p = old(self).outbound.spec_pending(request_id)->Some_0;
                r matches Ok(q) && q.method == p.method && q.uri@ == p.uri@ && q.headers
                    == p.headers && q.body@ == body@ && final(self).outbound.spec_pending(
                    request_id,
                ) is None && final(self).outbound.next_id == old(self).outbound.next_id && (
                forall|id2: u64|
                    id2 != request_id ==> final(self).outbound.spec_pending(id2) == old(
                        self,
                    ).outbound.spec_pending(id2))
            }),
    {
        match self.outbound.take(request_id) {
            Ok(p) => Ok(
                OutboundRequest { method: p.method, uri: p.uri, headers: p.headers, body },
            ),
            Err(e) => Err(HostCallError::Http(e)),
        }
    }

    /// The value visible at a granted remote-store key; nothing for an
    /// absent or lapsed key, which the boundary renders as empty bytes.
    pub fn get_remote_state(&self, key: &str) -> (r: Result<Option<StoredValue>, HostCallError>)
        requires
            self.wf(),
        ensures
            !self.permissions.spec_state_allowed(key@) ==> r == Result::<
                Option<StoredValue>,
                HostCallError,
            >::Err(HostCallError::PermissionDenied),
            self.permissions.spec_state_allowed(key@) && self.store is None ==> r == Result::<
                Option<StoredValue>,
                HostCallError,
            >::Err(HostCallError::StoreUnavailable),
            self.permissions.spec_state_allowed(key@) && self.store is Some ==> ({
                let s = self.store->Some_0;
                match r {
                    Ok(Some(v)) => s.spec_value(key@, self.clock) == Some(v@),
                    Ok(None) => s.spec_value(key@, self.clock) is None,
                    Err(_) => false,
                }
            }),
    {
        if !self.permissions.state_allowed(key) {
            return Err(HostCallError::PermissionDenied);
        }
        match &self.store {
            None => Err(HostCallError::StoreUnavailable),
            Some(s) => Ok(s.get_value(key, self.clock)),
        }
    }

    /// Writes a value at a granted remote-store key, clearing any lapse.
    pub fn set_remote_state(&mut self, key: &str, value: StoredValue) -> (r: Result<
        (),
        HostCallError,
    >)
        requires
            old(self).wf(),
        ensures
            final(self).wf(),
            frame_except_store(*old(self), *final(self)),
            !old(self).permissions.spec_state_allowed(key@) ==> r == Result::<
                (),
                HostCallError,
            >::Err(HostCallError::PermissionDenied) && *final(self) == *old(self),
            old(self).permissions.spec_state_allowed(key@) && old(self).store is None ==> r
                == Result::<(), HostCallError>::Err(HostCallError::StoreUnavailable) && *final(self) == *old(self),
            old(self).permissions.spec_state_allowed(key@) && old(self).store is Some ==> ({
                let pre = old(self).store->Some_0;
                let post = final(self).store->Some_0;
                r is Ok && final(self).store is Some && post.spec_cell(key@) == Some(
                    (value@, Option::<i64>::None),
                ) && (forall|k2: Seq<char>| k2 != key@ ==> post.spec_cell(k2) == pre.spec_cell(k2))
            }),
    {
        if !self.permissions.state_allowed(key) {
            return Err(HostCallError::PermissionDenied);
        }
        match &mut self.store {
            None => Err(HostCallError::StoreUnavailable),
            Some(s) => {
                s.set_value(key, value);
                Ok(())
            },
        }
    }

    /// Steps the counter at a granted remote-store key by one.
    pub fn increment_remote_state(&mut self, key: &str) -> (r: Result<i64, HostCallError>)
        requires
            old(self).wf(),
        ensures
            final(self).wf(),
            frame_except_store(*old(self), *final(self)),
            !old(self).permissions.spec_state_allowed(key@) ==> r == Result::<
                i64,
                HostCallError,
            >::Err(HostCallError::PermissionDenied) && *final(self) == *old(self),
            old(self).permissions.spec_state_allowed(key@) && old(self).store is None ==> r
                == Result::<i64, HostCallError>::Err(HostCallError::StoreUnavailable) && *final(self) == *old(self),
            old(self).permissions.spec_state_allowed(key@) && old(self).store is Some ==> ({
                let pre = old(self).store->Some_0;
                let post = final(self).store->Some_0;
                final(self).store is Some && (match r {
                Ok(v) => incr_step(
                    pre,
                    post,
                    key@,
                    1,
                    old(self).clock,
                    Result::<i64, StoreError>::Ok(v),
                ),
                Err(HostCallError::Store(e)) => incr_step(
                    pre,
                    post,
                    key@,
                    1,
                    old(self).clock,
                    Result::<i64, StoreError>::Err(e),
                ),
                Err(_) => false,
                })
            }),
    {
        self.increment_remote_state_by(key, 1)
    }

    /// Steps the counter at a granted remote-store key by a delta.
    pub fn increment_remote_state_by(&mut self, key: &str, delta: i64) -> (r: Result<
        i64,
        HostCallError,
    >)
        requires
            old(self).wf(),
        ensures
            final(self).wf(),
            frame_except_store(*old(self), *final(self)),
            !old(self).permissions.spec_state_allowed(key@) ==> r == Result::<
                i64,
                HostCallError,
            >::Err(HostCallError::PermissionDenied) && *final(self) == *old(self),
            old(self).permissions.spec_state_allowed(key@) && old(self).store is None ==> r
                == Result::<i64, HostCallError>::Err(HostCallError::StoreUnavailable) && *final(self) == *old(self),
            old(self).permissions.spec_state_allowed(key@) && old(self).store is Some ==> ({
                let pre = old(self).store->Some_0;
                let post = final(self).store->Some_0;
                final(self).store is Some && (match r {
                Ok(v) => incr_step(
                    pre,
                    post,
                    key@,
                    delta,
                    old(self).clock,
                    Result::<i64, StoreError>::Ok(v),
                ),
                Err(HostCallError::Store(e)) => incr_step(
                    pre,
                    post,
                    key@,
                    delta,
                    old(self).clock,
                    Result::<i64, StoreError>::Err(e),
                ),
                Err(_) => false,
                })
            }),
    {
        if !self.permissions.state_allowed(key) {
            return Err(HostCallError::PermissionDenied);
        }
        let now = self.clock;
        match &mut self.store {
            None => Err(HostCallError::StoreUnavailable),
            Some(s) => match s.incr_by(key, delta, now) {
                Ok(v) => Ok(v),
                Err(e) => Err(HostCallError::Store(e)),
            },
        }
    }

    /// Sets how long the value at a granted remote-store key lives: it
    /// lapses `ttl` seconds past the host clock.  Answers whether a live
    /// key was there to act on.
    pub fn set_remote_ttl(&mut self, key: &str, ttl: i64) -> (r: Result<bool, HostCallError>)
        requires
            old(self).wf(),
        ensures
            final(self).wf(),
            frame_except_store(*old(self), *final(self)),
            !old(self).permissions.spec_state_allowed(key@) ==> r == Result::<
                bool,
                HostCallError,
            >::Err(HostCallError::PermissionDenied) && *final(self) == *old(self),
            old(self).permissions.spec_state_allowed(key@) && old(self).store is None ==> r
                == Result::<bool, HostCallError>::Err(HostCallError::StoreUnavailable) && *final(self) == *old(self),
            old(self).permissions.spec_state_allowed(key@) && old(self).store is Some && !(
            i64::MIN <= old(self).clock + ttl <= i64::MAX) ==> r == Result::<
                bool,
                HostCallError,
            >::Err(HostCallError::Store(StoreError::Overflow)) && *final(self) == *old(self),
            old(self).permissions.spec_state_allowed(key@) && old(self).store is Some && i64::MIN
                <= old(self).clock + ttl <= i64::MAX ==> ({
                let pre = old(self).store->Some_0;
                let post = final(self).store->Some_0;
                final(self).store is Some && (match r {
                Ok(applied) => {
                    &&& applied == pre.spec_value(key@, old(self).clock) is Some
                    &&& (applied ==> post.spec_cell(key@) == Some(
                        (
                            pre.spec_cell(key@)->Some_0.0,
                            Some((old(self).clock + ttl) as i64),
                        ),
                    ) && (forall|k2: Seq<char>|
                        k2 != key@ ==> post.spec_cell(k2) == pre.spec_cell(k2)))
                    &&& (!applied ==> forall|k2: Seq<char>|
                        post.spec_cell(k2) == pre.spec_cell(k2))
                },
                Err(_) => false,
                })
            }),
    {
        if !self.permissions.state_allowed(key) {
            return Err(HostCallError::PermissionDenied);
        }
        let now = self.clock;
        let at_wide: i128 = now as i128 + ttl as i128;
        match &mut self.store {
            None => Err(HostCallError::StoreUnavailable),
            Some(s) => {
                if at_wide > i64::MAX as i128 || at_wide < i64::MIN as i128 {
                    return Err(HostCallError::Store(StoreError::Overflow));
                }
                let applied = s.set_expiry(key, now + ttl, now);
                Ok(applied)
            },
        }
    }

    /// Counts an attempt against a rate-limit window at a granted key,
    /// under the host clock.
    pub fn increment_rate_limit(&mut self, key: &str, delta: i64, window: i64) -> (r: Result<
        RateInterface,
        HostCallError,
    >)
        requires
            old(self).wf(),
        ensures
            final(self).wf(),
            frame_except_store(*old(self), *final(self)),
            !old(self).permissions.spec_state_allowed(key@) ==> r == Result::<
                RateInterface,
                HostCallError,
            >::Err(HostCallError::PermissionDenied) && *final(self) == *old(self),
            old(self).permissions.spec_state_allowed(key@) && old(self).store is None ==> r
                == Result::<RateInterface, HostCallError>::Err(HostCallError::StoreUnavailable)
                && *final(self) == *old(self),
            old(self).permissions.spec_state_allowed(key@) && old(self).store is Some ==> ({
                let pre = old(self).store->Some_0;
                let post = final(self).store->Some_0;
                final(self).store is Some && (match r {
                Ok(v) => rl_step(
                    pre,
                    post,
                    key@,
                    delta,
                    window,
                    old(self).clock,
                    Result::<RateInterface, StoreError>::Ok(v),
                ),
                Err(HostCallError::Store(e)) => rl_step(
                    pre,
                    post,
                    key@,
                    delta,
                    window,
                    old(self).clock,
                    Result::<RateInterface, StoreError>::Err(e),
                ),
                Err(_) => false,
                })
            }),
    {
        if !self.permissions.state_allowed(key) {
            return Err(HostCallError::PermissionDenied);
        }
        let now = self.clock;
        match &mut self.store {
            None => Err(HostCallError::StoreUnavailable),
            Some(s) => match s.increment_rate_limit(key, delta, window, now) {
                Ok(v) => Ok(v),
                Err(e) => Err(HostCallError::Store(e)),
            },
        }
    }

    /// Reads a rate-limit window at a granted key without touching it.
    pub fn check_rate_limit(&self, key: &str) -> (r: Result<Option<RateInterface>, HostCallError>)
        requires
            self.wf(),
        ensures
            !self.permissions.spec_state_allowed(key@) ==> r == Result::<
                Option<RateInterface>,
                HostCallError,
            >::Err(HostCallError::PermissionDenied),
            self.permissions.spec_state_allowed(key@) && self.store is None ==> r == Result::<
                Option<RateInterface>,
                HostCallError,
            >::Err(HostCallError::StoreUnavailable),
            self.permissions.spec_state_allowed(key@) && self.store is Some ==> ({
                let s = self.store->Some_0;
                r == Result::<Option<RateInterface>, HostCallError>::Ok(
                match s.spec_num(crate::scripts::rl_counter_key(key@), self.clock) {
                    Some(attempts) => match s.spec_num(
                        crate::scripts::rl_expiry_key(key@),
                        self.clock,
                    ) {
                        Some(e) => if self.clock > e {
                            Option::<RateInterface>::None
                        } else {
                            Some(RateInterface { attempts, expiration: e })
                        },
                        None => None,
                    },
                    None => None,
                },
            )
            }),
    {
        if !self.permissions.state_allowed(key) {
            return Err(HostCallError::PermissionDenied);
        }
        match &self.store {
            None => Err(HostCallError::StoreUnavailable),
            Some(s) => Ok(s.check_rate_limit(key, self.clock)),
        }
    }

    /// Records a success or failure observation against a circuit breaker
    /// at a granted key, under the host clock.
    pub fn increment_breaker(
        &mut self,
        key: &str,
        success_delta: i64,
        failure_delta: i64,
        window: i64,
    ) -> (r: Result<BreakerInterface, HostCallError>)
        requires
            old(self).wf(),
        ensures
            final(self).wf(),
            frame_except_store(*old(self), *final(self)),
            !old(self).permissions.spec_state_allowed(key@) ==> r == Result::<
                BreakerInterface,
                HostCallError,
            >::Err(HostCallError::PermissionDenied) && *final(self) == *old(self),
            old(self).permissions.spec_state_allowed(key@) && old(self).store is None ==> r
                == Result::<BreakerInterface, HostCallError>::Err(HostCallError::StoreUnavailable)
                && *final(self) == *old(self),
            old(self).permissions.spec_state_allowed(key@) && old(self).store is Some ==> ({
                let pre = old(self).store->Some_0;
                let post = final(self).store->Some_0;
                final(self).store is Some && (match r {
                Ok(v) => bk_step(
                    pre,
                    post,
                    key@,
                    success_delta,
                    failure_delta,
                    window,
                    old(self).clock,
                    Result::<BreakerInterface, StoreError>::Ok(v),
                ),
                Err(HostCallError::Store(e)) => bk_step(
                    pre,
                    post,
                    key@,
                    success_delta,
                    failure_delta,
                    window,
                    old(self).clock,
                    Result::<BreakerInterface, StoreError>::Err(e),
                ),
                Err(_) => false,
                })
            }),
    {
        if !self.permissions.state_allowed(key) {
            return Err(HostCallError::PermissionDenied);
        }
        let now = self.clock;
        match &mut self.store {
            None => Err(HostCallError::StoreUnavailable),
            Some(s) => match s.increment_breaker(key, success_delta, failure_delta, window, now) {
                Ok(v) => Ok(v),
                Err(e) => Err(HostCallError::Store(e)),
            },
        }
    }

    /// Reads a circuit breaker at a granted key without touching it.
    pub fn check_breaker(&self, key: &str) -> (r: Result<
        Option<BreakerInterface>,
        HostCallError,
    >)
        requires
            self.wf(),
        ensures
            !self.permissions.spec_state_allowed(key@) ==> r == Result::<
                Option<BreakerInterface>,
                HostCallError,
            >::Err(HostCallError::PermissionDenied),
            self.permissions.spec_state_allowed(key@) && self.store is None ==> r == Result::<
                Option<BreakerInterface>,
                HostCallError,
            >::Err(HostCallError::StoreUnavailable),
            self.permissions.spec_state_allowed(key@) && self.store is Some ==> ({
                let s = self.store->Some_0;
                match r {
                    Ok(reading) => reading == (match s.spec_num(
                    crate::scripts::bk_gen_key(key@),
                    self.clock,
                ) {
                    Some(g) => Some(
                        BreakerInterface {
                            generation: g,
                            successes: s.spec_num_or_zero(
                                crate::scripts::bk_success_key(key@),
                                self.clock,
                            ),
                            failures: s.spec_num_or_zero(
                                crate::scripts::bk_failure_key(key@),
                                self.clock,
                            ),
                            consecutive_successes: s.spec_num_or_zero(
                                crate::scripts::bk_consec_success_key(key@),
                                self.clock,
                            ),
                            consecutive_failures: s.spec_num_or_zero(
                                crate::scripts::bk_consec_failure_key(key@),
                                self.clock,
                            ),
                            expiration: crate::scripts::spec_expiretime(
                                s,
                                crate::scripts::bk_success_key(key@),
                                self.clock,
                            ),
                        },
                    ),
                        None => Option::<BreakerInterface>::None,
                    }),
                    Err(_) => false,
                }
            }),
    {
        if !self.permissions.state_allowed(key) {
            return Err(HostCallError::PermissionDenied);
        }
        match &self.store {
            None => Err(HostCallError::StoreUnavailable),
            Some(s) => Ok(s.check_breaker(key, self.clock)),
        }
    }
}

} // verus!
