//! The remote-store host calls, driven through a context with an injected
//! clock and an in-process store.

use plugin_host::context::RequestContext;
use plugin_host::interfaces::{HostCallError, RequestInterface};
use plugin_host::params::ParamsMap;
use plugin_host::perms::Permissions;
use plugin_host::plugin::Plugin;
use plugin_host::store::{StoreError, StoredValue, StoreModel};

fn store_request() -> RequestInterface {
    RequestInterface {
        method: "GET".to_string(),
        uri: "/".to_string(),
        version: "HTTP/1.1".to_string(),
        headers: Vec::new(),
        chunk: Vec::new(),
        chunk_start: 0,
        chunk_length: 0,
        end_of_stream: true,
    }
}

fn store_context(state_grants: &[&str], clock: i64) -> RequestContext {
    let permissions = Permissions {
        env: Vec::new(),
        http: Vec::new(),
        state: state_grants.iter().map(|s| s.to_string()).collect(),
    };
    let plugin = Plugin::new("store-plugin".to_string(), Vec::new(), permissions, 1_000_000_000);
    RequestContext::new(
        &plugin,
        Some(StoreModel::new()),
        ParamsMap::new(),
        store_request(),
        None,
        Vec::new(),
        clock,
    )
}

#[test]
fn rate_limit_window_counts_and_resets() {
    let mut ctx = store_context(&["ip:"], 1000);
    let first = ctx.increment_rate_limit("ip:1.2.3.4", 1, 60).unwrap();
    assert_eq!(first.attempts, 1);
    assert_eq!(first.expiration, 1060);
    ctx.set_clock(1030);
    let second = ctx.increment_rate_limit("ip:1.2.3.4", 1, 60).unwrap();
    assert_eq!(second.attempts, 2);
    assert_eq!(second.expiration, 1060);
    ctx.set_clock(1100);
    let third = ctx.increment_rate_limit("ip:1.2.3.4", 1, 60).unwrap();
    assert_eq!(third.attempts, 1);
    assert_eq!(third.expiration, 1160);
}

#[test]
fn rate_limit_check_reads_without_touching() {
    let mut ctx = store_context(&["ip:"], 1000);
    assert_eq!(ctx.check_rate_limit("ip:9.9.9.9").unwrap(), None);
    ctx.increment_rate_limit("ip:9.9.9.9", 2, 60).unwrap();
    let reading = ctx.check_rate_limit("ip:9.9.9.9").unwrap().unwrap();
    assert_eq!(reading.attempts, 2);
    assert_eq!(reading.expiration, 1060);
    // Past the window the reading is gone.
    ctx.set_clock(1061);
    assert_eq!(ctx.check_rate_limit("ip:9.9.9.9").unwrap(), None);
}

#[test]
fn breaker_transitions() {
    let mut ctx = store_context(&["svc"], 500);
    let up = ctx.increment_breaker("svc", 1, 0, 30).unwrap();
    assert_eq!(up.generation, 1);
    assert_eq!(up.successes, 1);
    assert_eq!(up.failures, 0);
    assert_eq!(up.consecutive_successes, 1);
    assert_eq!(up.consecutive_failures, 0);
    assert_eq!(up.expiration, 530);
    let down = ctx.increment_breaker("svc", 0, 1, 30).unwrap();
    assert_eq!(down.generation, 2);
    assert_eq!(down.successes, 1);
    assert_eq!(down.failures, 1);
    assert_eq!(down.consecutive_successes, 0);
    assert_eq!(down.consecutive_failures, 1);
    assert_eq!(down.expiration, 530);
}

#[test]
fn breaker_check_reports_counters_and_window() {
    let mut ctx = store_context(&["svc"], 500);
    assert_eq!(ctx.check_breaker("svc").unwrap(), None);
    ctx.increment_breaker("svc", 1, 0, 30).unwrap();
    let reading = ctx.check_breaker("svc").unwrap().unwrap();
    assert_eq!(reading.generation, 1);
    assert_eq!(reading.successes, 1);
    assert_eq!(reading.consecutive_successes, 1);
    // The window end reads as the success key's lapse less one second.
    assert_eq!(reading.expiration, 530);
}

#[test]
fn plain_state_calls_read_and_write() {
    let mut ctx = store_context(&["k:"], 100);
    assert!(matches!(ctx.get_remote_state("k:a"), Ok(None)));
    ctx.set_remote_state("k:a", StoredValue::Bytes(vec![1, 2, 3])).unwrap();
    match ctx.get_remote_state("k:a") {
        Ok(Some(StoredValue::Bytes(b))) => assert_eq!(b, vec![1, 2, 3]),
        other => panic!("unexpected reading: {:?}", other),
    }
    assert_eq!(ctx.increment_remote_state("k:n").unwrap(), 1);
    assert_eq!(ctx.increment_remote_state_by("k:n", 41).unwrap(), 42);
    match ctx.get_remote_state("k:n") {
        Ok(Some(StoredValue::Int(v))) => assert_eq!(v, 42),
        other => panic!("unexpected reading: {:?}", other),
    }
}

#[test]
fn ttl_lapses_values() {
    let mut ctx = store_context(&["k:"], 100);
    ctx.set_remote_state("k:a", StoredValue::Int(7)).unwrap();
    assert_eq!(ctx.set_remote_ttl("k:a", 10).unwrap(), true);
    assert!(matches!(ctx.get_remote_state("k:a"), Ok(Some(StoredValue::Int(7)))));
    ctx.set_clock(110);
    assert!(matches!(ctx.get_remote_state("k:a"), Ok(None)));
    // A lapsed key is not there to act on.
    assert_eq!(ctx.set_remote_ttl("k:a", 10).unwrap(), false);
}

#[test]
fn counter_on_bytes_is_refused() {
    let mut ctx = store_context(&["k:"], 100);
    ctx.set_remote_state("k:b", StoredValue::Bytes(vec![0x68, 0x69])).unwrap();
    assert_eq!(
        ctx.increment_remote_state("k:b"),
        Err(HostCallError::Store(StoreError::NotInteger))
    );
    // The refused call left the bytes alone.
    assert!(matches!(ctx.get_remote_state("k:b"), Ok(Some(StoredValue::Bytes(_)))));
}

#[test]
fn counter_overflow_is_refused() {
    let mut ctx = store_context(&["k:"], 100);
    ctx.set_remote_state("k:n", StoredValue::Int(i64::MAX)).unwrap();
    assert_eq!(
        ctx.increment_remote_state("k:n"),
        Err(HostCallError::Store(StoreError::Overflow))
    );
    assert!(matches!(ctx.get_remote_state("k:n"), Ok(Some(StoredValue::Int(i64::MAX)))));
}

#[test]
fn rate_limit_timestamp_overflow_is_refused() {
    let mut ctx = store_context(&["k:"], i64::MAX - 10);
    assert_eq!(
        ctx.increment_rate_limit("k:r", 1, 60),
        Err(HostCallError::Store(StoreError::Overflow))
    );
}

#[test]
fn state_calls_without_store_are_refused() {
    let permissions = Permissions {
        env: Vec::new(),
        http: Vec::new(),
        state: vec!["k:".to_string()],
    };
    let plugin = Plugin::new("storeless".to_string(), Vec::new(), permissions, 1_000_000_000);
    let mut ctx = RequestContext::new(
        &plugin,
        None,
        ParamsMap::new(),
        store_request(),
        None,
        Vec::new(),
        0,
    );
    assert_eq!(ctx.increment_remote_state("k:n"), Err(HostCallError::StoreUnavailable));
    assert_eq!(
        ctx.check_breaker("k:x"),
        Err::<Option<plugin_host::scripts::BreakerInterface>, _>(HostCallError::StoreUnavailable)
    );
}
