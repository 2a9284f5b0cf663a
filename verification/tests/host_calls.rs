//! The non-store host calls: params, environment, decisions, tags,
//! host-mutable slots, and the outbound gateway.

use plugin_host::context::{EnvVar, RequestContext};
use plugin_host::decision::{Decision, SCALE};
use plugin_host::interfaces::{
    HostCallError, IpInterface, OutboundHttpError, OutcomeInterface, RequestInterface,
    ResponseInterface,
};
use plugin_host::outbound::HttpMethod;
use plugin_host::params::{ParamsMap, Value};
use plugin_host::perms::Permissions;
use plugin_host::plugin::Plugin;

fn plain_request() -> RequestInterface {
    RequestInterface {
        method: "GET".to_string(),
        uri: "/".to_string(),
        version: "HTTP/1.1".to_string(),
        headers: Vec::new(),
        chunk: Vec::new(),
        chunk_start: 0,
        chunk_length: 0,
        end_of_stream: true,
    }
}

fn context_with(permissions: Permissions, env: Vec<EnvVar>) -> RequestContext {
    let plugin = Plugin::new("host-plugin".to_string(), vec![0x7b, 0x7d], permissions, SCALE);
    RequestContext::new(&plugin, None, ParamsMap::new(), plain_request(), None, env, 0)
}

#[test]
fn fresh_context_commits_to_nothing() {
    let ctx = context_with(Permissions::none(), Vec::new());
    assert_eq!(ctx.decision, Decision { accept: 0, restrict: 0, unknown: SCALE });
    assert!(ctx.tags.is_empty());
    assert_eq!(ctx.get_config(), &vec![0x7b, 0x7d]);
    assert_eq!(ctx.get_client_ip(), None);
}

#[test]
fn params_observe_the_latest_write() {
    let mut ctx = context_with(Permissions::none(), Vec::new());
    assert!(ctx.get_param_value("verdict").is_none());
    ctx.set_param_value("verdict", Value::Number(1));
    ctx.set_param_value("verdict", Value::Text("clean".to_string()));
    match ctx.get_param_value("verdict") {
        Some(Value::Text(t)) => assert_eq!(t, "clean"),
        other => panic!("unexpected param: {:?}", other),
    }
    assert!(ctx.get_param_value("other").is_none());
}

#[test]
fn env_read_is_permission_gated() {
    let env = vec![EnvVar { name: "SECRET".to_string(), value: b"hunter2".to_vec() }];
    let ctx = context_with(Permissions::none(), env);
    assert_eq!(ctx.get_env_bytes("SECRET"), Err(HostCallError::PermissionDenied));

    let granted = Permissions {
        env: vec!["SECRET".to_string()],
        http: Vec::new(),
        state: Vec::new(),
    };
    let env = vec![EnvVar { name: "SECRET".to_string(), value: b"hunter2".to_vec() }];
    let ctx = context_with(granted, env);
    assert_eq!(ctx.get_env_bytes("SECRET").unwrap(), b"hunter2".to_vec());
    assert_eq!(ctx.get_env_bytes("OTHER"), Err(HostCallError::PermissionDenied));
}

#[test]
fn granted_but_absent_env_is_missing() {
    let granted = Permissions {
        env: vec!["ABSENT".to_string()],
        http: Vec::new(),
        state: Vec::new(),
    };
    let ctx = context_with(granted, Vec::new());
    assert_eq!(ctx.get_env_bytes("ABSENT"), Err(HostCallError::MissingEnv));
}

#[test]
fn state_call_outside_grants_is_denied_without_side_effect() {
    let mut ctx = context_with(Permissions::none(), Vec::new());
    assert_eq!(
        ctx.increment_rate_limit("ip:1.2.3.4", 1, 60),
        Err(HostCallError::PermissionDenied)
    );
    assert_eq!(ctx.get_remote_state("ip:1.2.3.4"), Err(HostCallError::PermissionDenied));
}

#[test]
fn the_last_decision_written_is_observed() {
    let mut ctx = context_with(Permissions::none(), Vec::new());
    ctx.set_decision(Decision { accept: SCALE, restrict: 0, unknown: 0 }).unwrap();
    ctx.set_decision(Decision { accept: 0, restrict: SCALE, unknown: 0 }).unwrap();
    assert_eq!(ctx.decision, Decision { accept: 0, restrict: SCALE, unknown: 0 });
}

#[test]
fn an_invalid_decision_is_refused() {
    let mut ctx = context_with(Permissions::none(), Vec::new());
    let r = ctx.set_decision(Decision { accept: 1, restrict: 1, unknown: 1 });
    assert_eq!(r, Err(HostCallError::InvalidDecision));
    assert_eq!(ctx.decision, Decision { accept: 0, restrict: 0, unknown: SCALE });
}

#[test]
fn tags_overwrite() {
    let mut ctx = context_with(Permissions::none(), Vec::new());
    ctx.set_tags(vec!["a".to_string(), "b".to_string()]);
    ctx.set_tags(vec!["c".to_string()]);
    assert_eq!(ctx.tags, vec!["c".to_string()]);
}

#[test]
fn unset_slots_are_phase_errors() {
    let ctx = context_with(Permissions::none(), Vec::new());
    assert!(matches!(ctx.get_response(), Err(HostCallError::HostState)));
    assert_eq!(ctx.get_combined_decision(), Err(HostCallError::HostState));
    assert!(matches!(ctx.get_combined_tags(), Err(HostCallError::HostState)));
    assert_eq!(ctx.get_outcome(), Err(HostCallError::HostState));
}

#[test]
fn client_ip_passes_through() {
    let plugin = Plugin::plain("ip-plugin".to_string());
    let ctx = RequestContext::new(
        &plugin,
        None,
        ParamsMap::new(),
        plain_request(),
        Some(IpInterface::V4(203, 0, 113, 7)),
        Vec::new(),
        0,
    );
    assert_eq!(ctx.get_client_ip(), Some(IpInterface::V4(203, 0, 113, 7)));
}

fn http_context() -> RequestContext {
    let permissions = Permissions {
        env: Vec::new(),
        http: vec!["api.example.com".to_string()],
        state: Vec::new(),
    };
    context_with(permissions, Vec::new())
}

#[test]
fn outbound_ids_are_dense_and_fresh() {
    let mut ctx = http_context();
    let a = ctx.prepare_request("GET", "https://api.example.com/a").unwrap();
    let b = ctx.prepare_request("POST", "https://api.example.com/b").unwrap();
    assert_eq!(a, 0);
    assert_eq!(b, 1);
    assert_ne!(a, b);
}

#[test]
fn outbound_method_is_normalized() {
    let mut ctx = http_context();
    let id = ctx.prepare_request("post", "https://api.example.com/x").unwrap();
    let sent = ctx.set_request_body(id, b"{}".to_vec()).unwrap();
    assert_eq!(sent.method, HttpMethod::Post);
    assert_eq!(sent.uri, "https://api.example.com/x");
}

#[test]
fn outbound_unsupported_method_is_refused() {
    let mut ctx = http_context();
    assert_eq!(
        ctx.prepare_request("BREW", "https://api.example.com/x"),
        Err(HostCallError::Http(OutboundHttpError::UnsupportedMethod))
    );
}

#[test]
fn outbound_malformed_url_is_refused() {
    let mut ctx = http_context();
    assert_eq!(
        ctx.prepare_request("GET", "not a url"),
        Err(HostCallError::Http(OutboundHttpError::MalformedUrl))
    );
}

#[test]
fn outbound_host_outside_grants_is_denied() {
    // The grant names the host exactly; the URL's other parts do not count,
    // so a wrapper that handed the whole URL back would fail both ways.
    let mut ctx = http_context();
    assert!(ctx.prepare_request("GET", "https://api.example.com/long/path?q=1").is_ok());
    assert_eq!(
        ctx.prepare_request("GET", "https://evil.example.com/api.example.com"),
        Err(HostCallError::PermissionDenied)
    );
}

#[test]
fn outbound_request_assembles_headers_and_body() {
    let mut ctx = http_context();
    let id = ctx.prepare_request("PUT", "https://api.example.com/v").unwrap();
    ctx.add_request_header(id, "Content-Type".to_string(), b"application/json".to_vec()).unwrap();
    ctx.add_request_header(id, "X-Trace".to_string(), b"abc".to_vec()).unwrap();
    let sent = ctx.set_request_body(id, b"{\"n\": 1}".to_vec()).unwrap();
    assert_eq!(sent.headers.len(), 2);
    assert_eq!(sent.headers[0].name, "Content-Type");
    assert_eq!(sent.headers[0].value, b"application/json".to_vec());
    assert_eq!(sent.headers[1].name, "X-Trace");
    assert_eq!(sent.body, b"{\"n\": 1}".to_vec());
    // The id is spent.
    assert_eq!(
        ctx.add_request_header(id, "Late".to_string(), Vec::new()),
        Err(HostCallError::Http(OutboundHttpError::UnknownRequestId))
    );
    assert!(matches!(
        ctx.set_request_body(id, Vec::new()),
        Err(HostCallError::Http(OutboundHttpError::UnknownRequestId))
    ));
}

#[test]
fn recorded_slots_are_readable() {
    let mut ctx = context_with(Permissions::none(), Vec::new());
    ctx.host_mutable.response = Some(ResponseInterface {
        status: 200,
        headers: Vec::new(),
        chunk: b"ok".to_vec(),
        chunk_start: 0,
        chunk_length: 2,
        end_of_stream: true,
    });
    ctx.host_mutable.outcome = Some(OutcomeInterface::Accepted);
    assert_eq!(ctx.get_response().unwrap().status, 200);
    assert_eq!(ctx.get_outcome(), Ok(OutcomeInterface::Accepted));
}
