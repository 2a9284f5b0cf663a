//! Tag combination and permission predicates on concrete values.

use plugin_host::perms::{str_starts_with, Permissions};
use plugin_host::tags::{combine_tags, compare_tags, insert_tag, str_eq, TagOrd};

fn strs(v: &[&str]) -> Vec<String> {
    v.iter().map(|s| s.to_string()).collect()
}

#[test]
fn combine_tags_unions_sorted_deduplicated() {
    let lists = vec![strs(&["beta", "alpha"]), strs(&["gamma", "alpha"])];
    let r = combine_tags(&lists);
    assert_eq!(r, strs(&["alpha", "beta", "gamma"]));
}

#[test]
fn combine_tags_is_idempotent() {
    let a = strs(&["evil", "bot"]);
    let once = combine_tags(&vec![a.clone()]);
    let twice = combine_tags(&vec![a.clone(), a]);
    assert_eq!(once, twice);
    assert_eq!(once, strs(&["bot", "evil"]));
}

#[test]
fn combine_tags_is_order_independent() {
    let a = strs(&["x", "m"]);
    let b = strs(&["a", "m", "z"]);
    let fwd = combine_tags(&vec![a.clone(), b.clone()]);
    let rev = combine_tags(&vec![b, a]);
    assert_eq!(fwd, rev);
    assert_eq!(fwd, strs(&["a", "m", "x", "z"]));
}

#[test]
fn combine_tags_of_nothing_is_empty() {
    let r = combine_tags(&Vec::new());
    assert_eq!(r, Vec::<String>::new());
}

#[test]
fn tag_comparison_orders_by_code_point() {
    assert_eq!(compare_tags("alpha", "beta"), TagOrd::Less);
    assert_eq!(compare_tags("beta", "alpha"), TagOrd::Greater);
    assert_eq!(compare_tags("beta", "beta"), TagOrd::Equal);
    assert_eq!(compare_tags("abc", "abcd"), TagOrd::Less);
    assert_eq!(compare_tags("", "a"), TagOrd::Less);
    assert!(str_eq("same", "same"));
    assert!(!str_eq("same", "Same"));
}

#[test]
fn insert_tag_keeps_order_and_drops_duplicates() {
    let mut list = strs(&["b", "d"]);
    insert_tag(&mut list, "c");
    assert_eq!(list, strs(&["b", "c", "d"]));
    insert_tag(&mut list, "c");
    assert_eq!(list, strs(&["b", "c", "d"]));
    insert_tag(&mut list, "a");
    assert_eq!(list, strs(&["a", "b", "c", "d"]));
    insert_tag(&mut list, "e");
    assert_eq!(list, strs(&["a", "b", "c", "d", "e"]));
}

#[test]
fn env_and_http_grants_match_exactly() {
    let p = Permissions {
        env: strs(&["API_KEY"]),
        http: strs(&["api.example.com"]),
        state: Vec::new(),
    };
    assert!(p.env_allowed("API_KEY"));
    assert!(!p.env_allowed("api_key"));
    assert!(!p.env_allowed("SECRET"));
    assert!(p.http_allowed("api.example.com"));
    assert!(!p.http_allowed("example.com"));
    assert!(!p.http_allowed("evil.example.com"));
}

#[test]
fn state_grants_match_by_prefix() {
    let p = Permissions { env: Vec::new(), http: Vec::new(), state: strs(&["ip:", "rl:ip:"]) };
    assert!(p.state_allowed("ip:1.2.3.4"));
    assert!(p.state_allowed("ip:"));
    assert!(p.state_allowed("rl:ip:1.2.3.4"));
    assert!(!p.state_allowed("user:7"));
    assert!(!p.state_allowed("rl:user:7"));
    let none = Permissions::none();
    assert!(!none.state_allowed("ip:1.2.3.4"));
}

#[test]
fn prefix_test_is_literal() {
    assert!(str_starts_with("ip:1.2.3.4", "ip:"));
    assert!(str_starts_with("anything", ""));
    assert!(!str_starts_with("ip", "ip:"));
    assert!(!str_starts_with("xip:1", "ip:"));
}
