//! The instance lifecycle, with the guest's observable behaviour played
//! by the test where a sandbox would run it.

use plugin_host::context::RequestContext;
use plugin_host::decision::{Decision, SCALE};
use plugin_host::instance::{GuestExports, Phase, PluginExecutionError, PluginInstance};
use plugin_host::interfaces::{
    DecisionComponents, HeaderInterface, HostCallError, OutcomeInterface, RequestInterface,
};
use plugin_host::params::ParamsMap;
use plugin_host::plugin::Plugin;

fn request_with(headers: Vec<(&str, &[u8])>, method: &str, uri: &str, body: &[u8])
    -> RequestInterface {
    RequestInterface {
        method: method.to_string(),
        uri: uri.to_string(),
        version: "HTTP/1.1".to_string(),
        headers: headers
            .into_iter()
            .map(|(n, v)| HeaderInterface { name: n.to_string(), value: v.to_vec() })
            .collect(),
        chunk: body.to_vec(),
        chunk_start: 0,
        chunk_length: body.len() as u64,
        end_of_stream: true,
    }
}

fn instance_for(request: RequestInterface, exports: GuestExports) -> PluginInstance {
    let plugin = Plugin::plain("lifecycle-plugin".to_string());
    let ctx = RequestContext::new(&plugin, None, ParamsMap::new(), request, None, Vec::new(), 0);
    PluginInstance::new(plugin, exports, ctx)
}

fn start_only() -> GuestExports {
    GuestExports {
        start: true,
        request: false,
        request_decision: false,
        response_decision: false,
        decision_feedback: false,
    }
}

/// The guest of the evil-bit plugin: from the request-decision phase it
/// reads the `Evil` header and restricts when it says `true`.
fn run_evil_bit_guest(ctx: &mut RequestContext) {
    let evil = ctx
        .get_request()
        .headers
        .iter()
        .any(|h| h.name == "Evil" && h.value == b"true");
    if evil {
        ctx.set_decision(Decision { accept: 0, restrict: SCALE, unknown: 0 }).unwrap();
        ctx.set_tags(vec!["evil".to_string()]);
    } else {
        ctx.set_decision(Decision { accept: 0, restrict: 0, unknown: SCALE }).unwrap();
    }
}

#[test]
fn blank_slate_start_leaves_vacuous_decision() {
    let request = request_with(Vec::new(), "GET", "/", b"");
    let mut instance = instance_for(request, start_only());
    instance.start(false).unwrap();
    let components = instance.decision();
    assert_eq!(components.decision.accept, 0);
    assert_eq!(components.decision.restrict, 0);
    assert_eq!(components.decision.unknown, SCALE);
    assert_eq!(components.tags, Vec::<String>::new());
}

#[test]
fn evil_bit_benign_request_stays_unknown() {
    let request = request_with(
        vec![("Content-Type", b"application/json".as_slice())],
        "POST",
        "/example",
        b"{\"number\": 42}",
    );
    let mut exports = start_only();
    exports.request_decision = true;
    let mut instance = instance_for(request, exports);
    instance.start(false).unwrap();
    run_evil_bit_guest(&mut instance.context);
    instance.handle_request_decision(false).unwrap();
    let components = instance.decision();
    assert_eq!(components.decision.accept, 0);
    assert_eq!(components.decision.restrict, 0);
    assert_eq!(components.decision.unknown, SCALE);
    assert_eq!(components.tags, Vec::<String>::new());
}

#[test]
fn evil_bit_malicious_request_is_restricted() {
    let request = request_with(
        vec![
            ("Content-Type", b"application/json".as_slice()),
            ("Evil", b"true".as_slice()),
        ],
        "POST",
        "/example",
        b"{\"number\": 42}",
    );
    let mut exports = start_only();
    exports.request_decision = true;
    let mut instance = instance_for(request, exports);
    instance.start(false).unwrap();
    run_evil_bit_guest(&mut instance.context);
    instance.handle_request_decision(false).unwrap();
    let components = instance.decision();
    assert_eq!(components.decision.accept, 0);
    assert_eq!(components.decision.restrict, SCALE);
    assert_eq!(components.decision.unknown, 0);
    assert_eq!(components.tags, vec!["evil".to_string()]);
}

#[test]
fn denied_env_read_poisons_the_instance() {
    // The guest asks for a variable outside its empty grant; the denial
    // surfaces, the guest aborts, and the instance may not advance again.
    let request = request_with(Vec::new(), "GET", "/", b"");
    let mut exports = start_only();
    exports.request_decision = true;
    let mut instance = instance_for(request, exports);
    instance.start(false).unwrap();
    let denied = instance.context.get_env_bytes("SECRET");
    assert_eq!(denied, Err(HostCallError::PermissionDenied));
    let r = instance.handle_request_decision(true);
    assert_eq!(r, Err(PluginExecutionError::GuestTrap));
    assert!(instance.poisoned);
    assert_eq!(
        instance.handle_decision_feedback(false),
        Err(PluginExecutionError::InvalidPhase)
    );
}

#[test]
fn phases_run_in_order_only() {
    let request = request_with(Vec::new(), "GET", "/", b"");
    let exports = GuestExports {
        start: true,
        request: true,
        request_decision: true,
        response_decision: true,
        decision_feedback: true,
    };
    let mut instance = instance_for(request, exports);
    // Nothing before start.
    assert_eq!(instance.handle_request(false), Err(PluginExecutionError::InvalidPhase));
    instance.start(false).unwrap();
    assert_eq!(instance.phase, Phase::Started);
    // Optional phases may be skipped: response-decision straight from
    // started is fine, but the machine never goes backwards.
    instance.handle_response_decision(false).unwrap();
    assert_eq!(instance.phase, Phase::ResponseDecided);
    assert_eq!(instance.handle_request(false), Err(PluginExecutionError::InvalidPhase));
    instance.handle_decision_feedback(false).unwrap();
    assert_eq!(instance.phase, Phase::Finalized);
    assert_eq!(
        instance.handle_decision_feedback(false),
        Err(PluginExecutionError::InvalidPhase)
    );
}

#[test]
fn missing_mandatory_entry_point_fails() {
    let request = request_with(Vec::new(), "GET", "/", b"");
    let mut exports = start_only();
    exports.start = false;
    let mut instance = instance_for(request, exports);
    assert_eq!(instance.start(false), Err(PluginExecutionError::NotImplemented));
    assert!(instance.poisoned);
}

#[test]
fn missing_optional_entry_point_refuses_its_invocation() {
    let request = request_with(Vec::new(), "GET", "/", b"");
    let mut instance = instance_for(request, start_only());
    assert!(!instance.has_request_handler());
    assert!(!instance.has_request_decision_handler());
    assert!(!instance.has_response_decision_handler());
    assert!(!instance.has_decision_feedback_handler());
    instance.start(false).unwrap();
    // The router would skip it; invoking it anyway is the guest's missing
    // export, and poisons.
    assert_eq!(instance.handle_request(false), Err(PluginExecutionError::NotImplemented));
    assert!(instance.poisoned);
}

#[test]
fn recorded_combination_reaches_the_guest() {
    let request = request_with(Vec::new(), "GET", "/", b"");
    let mut exports = start_only();
    exports.decision_feedback = true;
    let mut instance = instance_for(request, exports);
    instance.start(false).unwrap();
    let combined = DecisionComponents {
        decision: Decision { accept: 0, restrict: SCALE, unknown: 0 },
        tags: vec!["evil".to_string()],
    };
    instance.record_combined_decision(combined, OutcomeInterface::Restricted);
    assert_eq!(
        instance.context.get_combined_decision().unwrap(),
        Decision { accept: 0, restrict: SCALE, unknown: 0 }
    );
    assert_eq!(instance.context.get_combined_tags().unwrap(), vec!["evil".to_string()]);
    assert_eq!(instance.context.get_outcome().unwrap(), OutcomeInterface::Restricted);
    instance.handle_decision_feedback(false).unwrap();
    assert_eq!(instance.phase, Phase::Finalized);
}

#[test]
fn weight_and_reference_pass_through() {
    let request = request_with(Vec::new(), "GET", "/", b"");
    let instance = instance_for(request, start_only());
    assert_eq!(instance.weight(), SCALE);
    assert_eq!(instance.plugin_reference(), "lifecycle-plugin");
}
