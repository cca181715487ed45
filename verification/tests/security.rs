use bridge_channel::security::constant_time_eq;
use bridge_channel::security::is_public_bind;
use bridge_channel::text::join;
use bridge_channel::text::list_contains;
use bridge_channel::text::same_text;
use bridge_channel::text::to_decimal;

#[test]
fn equal_texts_compare_equal() {
    assert!(constant_time_eq("", ""));
    assert!(constant_time_eq("secret123", "secret123"));
    assert!(constant_time_eq("sécrét", "sécrét"));
}

#[test]
fn different_texts_compare_different() {
    assert!(!constant_time_eq("secret123", "secret124"));
    assert!(!constant_time_eq("secret123", "secret12"));
    assert!(!constant_time_eq("", "a"));
    assert!(!constant_time_eq("a", ""));
    assert!(!constant_time_eq("a", "a\0"));
    assert!(!constant_time_eq("\0", ""));
}

#[test]
fn loopback_is_not_public() {
    for host in ["127.0.0.1", "localhost", "::1", "[::1]", "0:0:0:0:0:0:0:1"] {
        assert!(!is_public_bind(host));
    }
}

#[test]
fn other_hosts_are_public() {
    for host in ["0.0.0.0", "192.168.1.5", "::", "example.com", "", "127.0.0.10"] {
        assert!(is_public_bind(host));
    }
}

#[test]
fn decimals() {
    assert_eq!(to_decimal(0), "0");
    assert_eq!(to_decimal(9), "9");
    assert_eq!(to_decimal(10), "10");
    assert_eq!(to_decimal(9090), "9090");
    assert_eq!(to_decimal(65535), "65535");
}

#[test]
fn texts() {
    assert!(same_text("é", "é"));
    assert!(!same_text("é", "e"));
    assert!(!same_text("ab", "abc"));
    assert_eq!(join("bridge_", "user_a"), "bridge_user_a");
    let list = vec!["a".to_string(), "b".to_string()];
    assert!(list_contains(&list, "b"));
    assert!(!list_contains(&list, "c"));
}
